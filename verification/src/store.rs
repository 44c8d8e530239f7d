//! The state of all channels, and the answer to every command.

use std::collections::HashMap;

use vstd::prelude::*;
use vstd::string::*;

use crate::date::{CivilDate, Date, Day};
use crate::date_laws;
use crate::model::RotaView;
use crate::potsworth_command;
use crate::reply;
use crate::reply::Turn;
use crate::request;
use crate::request::{Request, TopValue};
use crate::rota::Rota;
use crate::rota_command;
use crate::session_command;
use crate::text;

verus! {

broadcast use vstd::std_specs::hash::group_hash_axioms;

/// The rotas of all channels: each channel has its own.
#[derive(Debug)]
pub struct Store {
    rotas: HashMap<u64, Rota>,
}

impl View for Store {
    type V = Map<u64, RotaView>;

    closed spec fn view(&self) -> Map<u64, RotaView> {
        self.rotas@.map_values(|r: Rota| r@)
    }
}

/// The rota of a channel; an empty one if there is none yet.
pub open spec fn rota_of(store: Map<u64, RotaView>, channel: u64) -> RotaView {
    if store.contains_key(channel) {
        store[channel]
    } else {
        RotaView::empty()
    }
}

/// Whether every rota is well formed, and bound to no other channel than its own.
pub open spec fn store_well_formed(store: Map<u64, RotaView>) -> bool {
    forall|channel: u64| #[trigger]
        store.contains_key(channel) ==> {
            &&& store[channel].well_formed()
            &&& store[channel].master_channel matches Some(bound) ==> bound == channel
        }
}

/// The answer to a command.
#[derive(Debug, PartialEq, Eq)]
pub struct Response {
    /// The text of the reply.
    pub text: String,
    /// Whether only the one who asked sees it.
    pub ephemeral: bool,
    /// Whether the state is to be kept.
    pub save: bool,
}

/// What a command comes to: the state behind it, the reply, who sees it, and whether the state is
/// to be kept.
pub struct Outcome {
    pub store: Map<u64, RotaView>,
    pub text: Seq<char>,
    pub ephemeral: bool,
    pub save: bool,
}

/// What a command and a subcommand come to in a channel.
pub open spec fn dispatch(
    r: RotaView,
    req: Request,
    bot_id: u64,
    today: CivilDate,
) -> Option<Turn> {
    let sub = req.options@[0].name@;
    let opts = req.options@[0].value->SubCommand_0@;
    let users = req.users@;
    if req.name@ == "rota"@ {
        Some(rota_command::rota_turn(r, sub, opts, users, bot_id, today))
    } else if req.name@ == "session"@ {
        session_command::session_turn(r, sub, opts, users, today)
    } else if req.name@ == "potsworth"@ {
        Some(
            potsworth_command::potsworth_turn(r, sub, opts, users, req.channel_id, bot_id),
        )
    } else {
        Some(reply::only_say(r, "Unknown command `"@ + req.name@ + "`."@))
    }
}

/// Whether a command has a subcommand and was given in a server.
pub open spec fn is_addressed(req: Request) -> bool {
    req.guild_id is Some && req.options@.len() > 0 && req.options@[0].value is SubCommand
}

/// What a command comes to on a day. It comes to nothing if its subcommand does.
pub open spec fn outcome(
    store: Map<u64, RotaView>,
    req: Request,
    bot_id: u64,
    today: CivilDate,
) -> Option<Outcome> {
    let channel = req.channel_id;
    let r = rota_of(store, channel);
    if req.guild_id is None {
        Some(
            Outcome {
                store,
                text: "The tea rota only works inside a server, not in DMs."@,
                ephemeral: false,
                save: false,
            },
        )
    } else if !is_addressed(req) {
        Some(Outcome { store, text: "Unknown command."@, ephemeral: false, save: false })
    } else if r.master_channel is Some && r.master_channel != Some(channel) {
        Some(
            Outcome {
                store,
                text: "🤵🏻‍♂️ I only attend to my duties in <#"@ + text::decimal(
                    r.master_channel->0 as nat,
                ) + ">."@,
                ephemeral: true,
                save: false,
            },
        )
    } else {
        match dispatch(r, req, bot_id, today) {
            Some(turn) => Some(
                Outcome {
                    store: store.insert(channel, turn.rota),
                    text: turn.reply,
                    ephemeral: !request::shown_to_all(
                        req.name@,
                        req.options@[0].name@,
                        req.options@[0].value->SubCommand_0@,
                    ),
                    save: true,
                },
            ),
            None => None,
        }
    }
}

/// Whether the butler reacts to a message: one of somebody else, in a server, that mentions him. It
/// does not matter in which channel it is, nor what is kept of that channel.
pub open spec fn should_react(
    bot_id: u64,
    author_id: u64,
    guild_id: Option<u64>,
    mentions: Seq<u64>,
) -> bool {
    &&& bot_id != 0
    &&& author_id != bot_id
    &&& guild_id is Some
    &&& mentions.contains(bot_id)
}

/// The channel that a key of the kept state stands for: the key is the id of the channel in decimal.
pub fn channel_of_key(key: &str) -> (r: Option<u64>)
    ensures
        match r {
            Some(channel) => key@ == text::decimal(channel as nat),
            None => forall|channel: u64| key@ != #[trigger] text::decimal(channel as nat),
        },
{
    proof {
        assert forall|channel: u64| key@ == #[trigger] text::decimal(channel as nat) implies
            text::read_u64(key@) == Some(channel) by {
            date_laws::decimal_is_read_back(channel as nat);
        }
    }
    match text::parse_u64(key) {
        Some(channel) => if text::same(key, text::to_decimal(channel).as_str()) {
            Some(channel)
        } else {
            None
        },
        None => None,
    }
}

impl Default for Store {
    fn default() -> (r: Self)
        ensures
            r@ == Map::<u64, RotaView>::empty(),
    {
        let r = Store { rotas: HashMap::new() };
        assert(r@ =~= Map::<u64, RotaView>::empty());
        r
    }
}

impl Store {
    /// The rota of a channel to change; an empty one is made if there is none yet.
    pub fn rota_mut(&mut self, channel_id: u64) -> (r: &mut Rota)
        ensures
            r@ == rota_of(old(self)@, channel_id),
            final(self)@ == old(self)@.insert(channel_id, final(r)@),
    {
        self.rotas.entry(channel_id).or_insert(Rota::default())
    }

    /// The rota of a channel to read, if there is one.
    pub fn rota(&self, channel_id: u64) -> (r: Option<&Rota>)
        ensures
            match r {
                Some(rota) => self@.contains_key(channel_id) && rota@ == self@[channel_id],
                None => !self@.contains_key(channel_id),
            },
    {
        self.rotas.get(&channel_id)
    }

    /// Answers a command, and looks at the day only where it matters.
    fn answer(&mut self, request: &Request, bot_id: u64, day: Day) -> (r: Option<Response>)
        ensures
            exists|today: CivilDate| #[trigger]
                day.may_be(today) && match (r, outcome(old(self)@, *request, bot_id, today)) {
                    (Some(r), Some(o)) => {
                        &&& final(self)@ == o.store
                        &&& r.text@ == o.text
                        &&& r.ephemeral == o.ephemeral
                        &&& r.save == o.save
                    },
                    (None, None) => final(self)@ == old(self)@,
                    _ => false,
                },
            store_well_formed(old(self)@) ==> store_well_formed(final(self)@) && r is Some,
    {
        proof {
            day.is_some_date();
        }
        if request.guild_id.is_none() {
            return Some(
                Response {
                    text: "The tea rota only works inside a server, not in DMs.".to_owned(),
                    ephemeral: false,
                    save: false,
                },
            );
        }
        if request.options.len() == 0 {
            return Some(
                Response { text: "Unknown command.".to_owned(), ephemeral: false, save: false },
            );
        }
        let sub = &request.options[0];
        let opts = match &sub.value {
            TopValue::SubCommand(opts) => opts.as_slice(),
            TopValue::Other => {
                return Some(
                    Response { text: "Unknown command.".to_owned(), ephemeral: false, save: false },
                );
            },
        };
        let channel = request.channel_id;
        let users = request.users.as_slice();
        let ghost before = self@;
        let ghost r0 = rota_of(before, channel);
        let rota = self.rota_mut(channel);
        if let Some(bound) = rota.master_channel() {
            if channel != bound {
                assert(before.insert(channel, r0) =~= before);
                return Some(
                    Response {
                        text: reply::wrapped(
                            "🤵🏻‍♂️ I only attend to my duties in <#",
                            text::to_decimal(bound).as_str(),
                            ">.",
                        ),
                        ephemeral: true,
                        save: false,
                    },
                );
            }
        }
        let name = request.name.as_str();
        let answer = if text::same(name, "rota") {
            Some(rota_command::answer_rota(rota, sub.name.as_str(), opts, users, bot_id, day))
        } else if text::same(name, "session") {
            session_command::answer_session(rota, sub.name.as_str(), opts, users, day)
        } else if text::same(name, "potsworth") {
            Some(
                potsworth_command::handle_potsworth(
                    rota,
                    sub.name.as_str(),
                    opts,
                    users,
                    channel,
                    bot_id,
                ),
            )
        } else {
            Some(reply::wrapped("Unknown command `", name, "`."))
        };
        let ephemeral = !request::is_public(name, sub.name.as_str(), opts);
        match answer {
            Some(text) => Some(Response { text, ephemeral, save: true }),
            None => {
                assert(before.insert(channel, r0) =~= before);
                None
            },
        }
    }

    /// Answers a command, on a given day. There is no answer where `/session add` has to assign a
    /// person while the marker points behind the last one; in a well-formed store that does not
    /// happen.
    pub fn handle_on(&mut self, request: &Request, bot_id: u64, today: Date) -> (r: Option<Response>)
        ensures
            match (r, outcome(old(self)@, *request, bot_id, today@)) {
                (Some(r), Some(o)) => {
                    &&& final(self)@ == o.store
                    &&& r.text@ == o.text
                    &&& r.ephemeral == o.ephemeral
                    &&& r.save == o.save
                },
                (None, None) => final(self)@ == old(self)@,
                _ => false,
            },
            store_well_formed(old(self)@) ==> store_well_formed(final(self)@) && r is Some,
    {
        self.answer(request, bot_id, Day::Given(today))
    }

    /// Answers a command, on the day that it is (see [`Store::handle_on`]). The clock is read only
    /// for a command to which the day matters.
    pub fn handle(&mut self, request: &Request, bot_id: u64) -> (r: Option<Response>)
        ensures
            exists|today: CivilDate| #[trigger]
                today.valid() && match (r, outcome(old(self)@, *request, bot_id, today)) {
                    (Some(r), Some(o)) => {
                        &&& final(self)@ == o.store
                        &&& r.text@ == o.text
                        &&& r.ephemeral == o.ephemeral
                        &&& r.save == o.save
                    },
                    (None, None) => final(self)@ == old(self)@,
                    _ => false,
                },
            store_well_formed(old(self)@) ==> store_well_formed(final(self)@) && r is Some,
    {
        self.answer(request, bot_id, Day::Current)
    }

    /// Tells whether the butler reacts to a message (see [`should_react`]).
    pub fn reacts_to(
        &self,
        bot_id: u64,
        author_id: u64,
        guild_id: Option<u64>,
        _channel_id: u64,
        mentions: &[u64],
    ) -> (r: bool)
        ensures
            r == should_react(bot_id, author_id, guild_id, mentions@),
    {
        if bot_id == 0 || author_id == bot_id || guild_id.is_none() {
            return false;
        }
        let mut tagged = false;
        let mut i: usize = 0;
        while i < mentions.len()
            invariant
                i <= mentions.len(),
                tagged == mentions@.take(i as int).contains(bot_id),
            decreases mentions.len() - i,
        {
            let ghost seen = mentions@.take(i as int);
            assert(mentions@.take(i + 1) == seen.push(mentions@[i as int]));
            assert(mentions@.take(i + 1).contains(bot_id) <==> seen.contains(bot_id)
                || mentions@[i as int] == bot_id) by {
                assert(seen.push(mentions@[i as int])[i as int] == mentions@[i as int]);
                if seen.contains(bot_id) {
                    let j = choose|j: int| 0 <= j < seen.len() && seen[j] == bot_id;
                    assert(seen.push(mentions@[i as int])[j] == bot_id);
                }
            }
            if mentions[i] == bot_id {
                tagged = true;
            }
            i += 1;
        }
        assert(mentions@.take(i as int) == mentions@);
        tagged
    }

    /// The channels that have a rota, in no particular order.
    pub fn channels(&self) -> (r: Vec<u64>)
        ensures
            r@.no_duplicates(),
            forall|channel: u64| r@.contains(channel) <==> self@.contains_key(channel),
    {
        let mut r: Vec<u64> = Vec::new();
        for channel in it: self.rotas.keys()
            invariant
                it.seq().unref().to_set() == self.rotas@.dom(),
                r@ == it.seq().take(it.index()).unref(),
                it.index() == it.seq().len() ==> r@.to_set() == self.rotas@.dom(),
        {
            r.push(*channel);
            assert(r@ == it.seq().take(it.index() + 1).unref());
            assert(it.seq().take(it.seq().len() as int) == it.seq());
        }
        assert forall|channel: u64| r@.contains(channel) <==> self@.contains_key(channel) by {
            assert(r@.to_set().contains(channel) <==> r@.contains(channel));
        }
        r
    }
}

} // verus!
