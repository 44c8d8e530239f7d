//! Replies, and what commands come to.

use vstd::prelude::*;
use vstd::string::*;

use crate::model::RotaView;

verus! {

/// What a command comes to: the rota behind it, and the reply.
pub struct Turn {
    pub rota: RotaView,
    pub reply: Seq<char>,
}

/// A reply that leaves the rota as it is.
pub open spec fn only_say(r: RotaView, reply: Seq<char>) -> Turn {
    Turn { rota: r, reply }
}

/// The reply to a subcommand that does not exist.
pub open spec fn unknown_subcommand(sub: Seq<char>) -> Seq<char> {
    "Unknown subcommand `"@ + sub + "`."@
}

/// A text between two others.
pub(crate) fn wrapped(front: &str, middle: &str, back: &str) -> (r: String)
    ensures
        r@ == front@ + middle@ + back@,
{
    let mut r = front.to_owned();
    r.append(middle);
    r.append(back);
    r
}

} // verus!
