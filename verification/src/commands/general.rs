//! General commands: ping, a random cat picture, and consequences.
use vstd::prelude::*;

verus! {

/// The reply to `>ping`.
pub fn ping() -> (reply: String)
    ensures
        reply@ == "pawng"@,
{
    String::from_str("pawng")
}

/// The cat API the bot asks for a random cat picture.
pub const CAT_API_URL: &'static str = "https://cataas.com/cat?json=1";

/// The reply to `>cat`, given the `url` the cat API answered with.
pub fn cat(url: Option<String>) -> (reply: String)
    ensures
        reply@ == (match url {
            Some(u) => u@,
            None => "no cat found :("@,
        }),
{
    match url {
        Some(u) => u,
        None => String::from_str("no cat found :("),
    }
}

/// The parts of a Discord user that the bot reads.
pub struct DiscordUser {
    /// The account's user name.
    pub name: String,
    /// The global display name, when the user has set one.
    pub global_name: Option<String>,
}

impl DiscordUser {
    /// The name Discord shows for the user: the global display name when
    /// there is one, the user name otherwise.
    pub open spec fn shown_name(&self) -> Seq<char> {
        match self.global_name {
            Some(g) => g@,
            None => self.name@,
        }
    }

    /// The name Discord shows for the user.
    pub fn display_name(&self) -> (shown: String)
        ensures
            shown@ == self.shown_name(),
    {
        match &self.global_name {
            Some(g) => g.clone(),
            None => self.name.clone(),
        }
    }
}

/// What `>consequence` sends: a direct message to the user, and a reply in
/// the channel.
pub struct ConsequenceMessages {
    pub direct_message: String,
    pub reply: String,
}

/// The messages of `>consequence` for the given user.
pub fn consequence(user: &DiscordUser) -> (msgs: ConsequenceMessages)
    ensures
        msgs.direct_message@ == "Your consequence has been delivered."@,
        msgs.reply@ == "Consequence initiated for "@ + user.shown_name() + "."@,
{
    let name = user.display_name();
    let mut reply = String::from_str("Consequence initiated for ");
    reply.append(name.as_str());
    reply.append(".");
    ConsequenceMessages {
        direct_message: String::from_str("Your consequence has been delivered."),
        reply,
    }
}

} // verus!
