use vstd::prelude::*;

verus! {

/// A user, as the cache keeps it.
#[derive(Clone, Debug, PartialEq, Eq)]
pub struct User {
    pub id: u64,
    pub name: String,
    pub discriminator: String,
    pub avatar: Option<String>,
    pub bot: bool,
}

/// A guild emoji as an event delivers it, with the user who made it
/// embedded.
#[derive(Clone, Debug, PartialEq, Eq)]
pub struct Emoji {
    pub id: u64,
    pub animated: bool,
    pub name: String,
    pub managed: bool,
    pub require_colons: bool,
    pub roles: Vec<u64>,
    pub user: Option<User>,
    pub available: bool,
}

/// A guild emoji as the cache keeps it: the embedded user is reduced to its
/// id and kept in the user store.
#[derive(Clone, Debug, PartialEq, Eq)]
pub struct CachedEmoji {
    pub id: u64,
    pub animated: bool,
    pub name: String,
    pub managed: bool,
    pub require_colons: bool,
    pub roles: Vec<u64>,
    pub user_id: Option<u64>,
    pub available: bool,
}

/// The id of an embedded user, if there is one.
pub open spec fn user_id_of(user: Option<User>) -> Option<u64> {
    match user {
        Some(u) => Some(u.id),
        None => None,
    }
}

/// The cached form of an emoji.
pub open spec fn cached_emoji(e: Emoji) -> CachedEmoji {
    CachedEmoji {
        id: e.id,
        animated: e.animated,
        name: e.name,
        managed: e.managed,
        require_colons: e.require_colons,
        roles: e.roles,
        user_id: user_id_of(e.user),
        available: e.available,
    }
}

impl CachedEmoji {
    /// Reduces an emoji to its cached form, handing back the embedded user.
    pub fn from_emoji(e: Emoji) -> (r: (CachedEmoji, Option<User>))
        ensures
            r.0 == cached_emoji(e),
            r.1 == e.user,
    {
        let user_id = match &e.user {
            Some(u) => Some(u.id),
            None => None,
        };
        let cached = CachedEmoji {
            id: e.id,
            animated: e.animated,
            name: e.name,
            managed: e.managed,
            require_colons: e.require_colons,
            roles: e.roles,
            user_id,
            available: e.available,
        };
        (cached, e.user)
    }
}

/// An integration of a guild.
#[derive(Clone, Debug, PartialEq, Eq)]
pub struct GuildIntegration {
    pub id: u64,
    pub guild_id: Option<u64>,
    pub name: String,
    pub kind: String,
    pub enabled: bool,
    pub role_id: Option<u64>,
}

/// A message as an event delivers it, with its author embedded.
#[derive(Clone, Debug, PartialEq, Eq)]
pub struct Message {
    pub id: u64,
    pub channel_id: u64,
    pub author: User,
    pub content: String,
}

/// A message as the cache keeps it: the author is reduced to its id.
#[derive(Clone, Debug, PartialEq, Eq)]
pub struct CachedMessage {
    pub id: u64,
    pub channel_id: u64,
    pub author_id: u64,
    pub content: String,
}

/// The cached form of a message.
pub open spec fn cached_message(m: Message) -> CachedMessage {
    CachedMessage { id: m.id, channel_id: m.channel_id, author_id: m.author.id, content: m.content }
}

impl CachedMessage {
    /// Reduces a message to its cached form, handing back the author.
    pub fn from_message(m: Message) -> (r: (CachedMessage, User))
        ensures
            r.0 == cached_message(m),
            r.1 == m.author,
    {
        let cached = CachedMessage {
            id: m.id,
            channel_id: m.channel_id,
            author_id: m.author.id,
            content: m.content,
        };
        (cached, m.author)
    }
}

} // verus!
