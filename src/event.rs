use crate::cache::{owned_among, InMemoryCache};
use crate::config::ResourceType;
use crate::model::{Emoji, GuildIntegration, Message};
use vstd::prelude::*;

verus! {

/// An incoming update event, as the event source hands it over.
pub enum Event {
    /// The complete current emoji list of a guild.
    GuildEmojisUpdate { guild_id: u64, emojis: Vec<Emoji> },
    /// A guild was deleted.
    GuildDelete { id: u64 },
    /// A channel was deleted.
    ChannelDelete { id: u64 },
    /// An integration was created; one without a guild is ignored.
    IntegrationCreate(GuildIntegration),
    /// An integration was updated; one without a guild is ignored.
    IntegrationUpdate(GuildIntegration),
    /// An integration of a guild was deleted.
    IntegrationDelete { guild_id: u64, id: u64 },
    /// A message was posted.
    MessageCreate(Message),
    /// A message of a channel was deleted.
    MessageDelete { channel_id: u64, id: u64 },
    /// Several messages of a channel were deleted.
    MessageDeleteBulk { channel_id: u64, ids: Vec<u64> },
}

impl Event {
    /// The category whose mask bit gates this event.
    pub open spec fn spec_kind(&self) -> ResourceType {
        match self {
            Event::GuildEmojisUpdate { .. } => ResourceType::EMOJI,
            Event::GuildDelete { .. } => ResourceType::GUILD,
            Event::ChannelDelete { .. } => ResourceType::CHANNEL,
            Event::IntegrationCreate(_) => ResourceType::INTEGRATION,
            Event::IntegrationUpdate(_) => ResourceType::INTEGRATION,
            Event::IntegrationDelete { .. } => ResourceType::INTEGRATION,
            Event::MessageCreate(_) => ResourceType::MESSAGE,
            Event::MessageDelete { .. } => ResourceType::MESSAGE,
            Event::MessageDeleteBulk { .. } => ResourceType::MESSAGE,
        }
    }

    /// Returns the category whose mask bit gates this event.
    pub fn kind(&self) -> (r: ResourceType)
        ensures
            r == self.spec_kind(),
    {
        match self {
            Event::GuildEmojisUpdate { .. } => ResourceType::EMOJI,
            Event::GuildDelete { .. } => ResourceType::GUILD,
            Event::ChannelDelete { .. } => ResourceType::CHANNEL,
            Event::IntegrationCreate(_) => ResourceType::INTEGRATION,
            Event::IntegrationUpdate(_) => ResourceType::INTEGRATION,
            Event::IntegrationDelete { .. } => ResourceType::INTEGRATION,
            Event::MessageCreate(_) => ResourceType::MESSAGE,
            Event::MessageDelete { .. } => ResourceType::MESSAGE,
            Event::MessageDeleteBulk { .. } => ResourceType::MESSAGE,
        }
    }
}

impl InMemoryCache {
    /// `next` is this cache once `event` is applied with its category
    /// enabled.
    pub open spec fn applied(self, next: Self, event: Event) -> bool {
        match event {
            Event::GuildEmojisUpdate { guild_id, emojis } => self.emojis_replaced(next, guild_id, emojis@),
            Event::GuildDelete { id } => self.guild_deleted(next, id),
            Event::ChannelDelete { id } => self.channel_deleted(next, id),
            Event::IntegrationCreate(i) => match i.guild_id {
                Some(g) => self.integration_cached(next, g, i),
                None => next == self,
            },
            Event::IntegrationUpdate(i) => match i.guild_id {
                Some(g) => self.integration_cached(next, g, i),
                None => next == self,
            },
            Event::IntegrationDelete { guild_id, id } => self.integration_deleted(next, guild_id, id),
            Event::MessageCreate(m) => self.message_cached(next, m),
            Event::MessageDelete { channel_id, id } => self.message_deleted(next, channel_id, id),
            Event::MessageDeleteBulk { channel_id, ids } => {
                &&& next.message_store().items() == self.message_store().items().remove_keys(
                    owned_among(self.message_store().items(), channel_id, ids@),
                )
                &&& next.message_store().index().dom() == self.message_store().index().dom()
                &&& next.message_store().order().dom() == self.message_store().order().dom()
                &&& next.users() == self.users()
                &&& next.spec_config() == self.spec_config()
                &&& next.emoji_store() == self.emoji_store()
                &&& next.integration_store() == self.integration_store()
            },
        }
    }

    /// Applies one event. The mask is read once, first: an event of a
    /// disabled category changes nothing at all.
    pub fn update(&mut self, event: Event)
        requires
            old(self).wf(),
        ensures
            final(self).wf(),
            !old(self).spec_wants(event.spec_kind()) ==> *final(self) == *old(self),
            old(self).spec_wants(event.spec_kind()) ==> old(self).applied(*final(self), event),
    {
        if !self.wants(event.kind()) {
            return;
        }
        match event {
            Event::GuildEmojisUpdate { guild_id, emojis } => self.cache_emojis(guild_id, emojis),
            Event::GuildDelete { id } => self.delete_guild(id),
            Event::ChannelDelete { id } => self.delete_channel(id),
            Event::IntegrationCreate(i) => match i.guild_id {
                Some(g) => self.cache_integration(g, i),
                None => {},
            },
            Event::IntegrationUpdate(i) => match i.guild_id {
                Some(g) => self.cache_integration(g, i),
                None => {},
            },
            Event::IntegrationDelete { guild_id, id } => self.delete_integration(guild_id, id),
            Event::MessageCreate(m) => self.cache_message(m),
            Event::MessageDelete { channel_id, id } => self.delete_message(channel_id, id),
            Event::MessageDeleteBulk { channel_id, ids } => self.delete_messages(channel_id, &ids),
        }
    }
}

} // verus!
