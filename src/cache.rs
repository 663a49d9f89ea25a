use crate::config::{Config, ResourceType};
use crate::history::{evicted, history_of, pushed, BoundedStore};
use crate::model::{cached_emoji, cached_message, CachedEmoji, CachedMessage, Emoji, GuildIntegration, Message, User};
use crate::store::{detach, index_add, index_drop, kept_index, kept_items, OwnedItem, OwnedStore};
use std::collections::HashMap;
use vstd::prelude::*;

verus! {

broadcast use vstd::std_specs::hash::group_hash_axioms;

/// The user store once an embedded user, if any, is upserted.
pub open spec fn with_user(users: Map<u64, User>, user: Option<User>) -> Map<u64, User> {
    match user {
        Some(u) => users.insert(u.id, u),
        None => users,
    }
}

/// The ids of a list of emojis, in order.
pub open spec fn emoji_ids(es: Seq<Emoji>) -> Seq<u64> {
    es.map_values(|e: Emoji| e.id)
}

/// The user store once the users embedded in `es` are upserted in order.
pub open spec fn users_after(users: Map<u64, User>, es: Seq<Emoji>) -> Map<u64, User>
    decreases es.len(),
{
    if es.len() == 0 {
        users
    } else {
        with_user(users_after(users, es.drop_last()), es.last().user)
    }
}

/// The emoji records once each emoji of `es` is upserted in order for `guild`.
pub open spec fn emoji_items_after(
    items: Map<u64, OwnedItem<CachedEmoji>>,
    guild: u64,
    es: Seq<Emoji>,
) -> Map<u64, OwnedItem<CachedEmoji>>
    decreases es.len(),
{
    if es.len() == 0 {
        items
    } else {
        emoji_items_after(items, guild, es.drop_last()).insert(
            es.last().id,
            OwnedItem { data: cached_emoji(es.last()), owner: guild },
        )
    }
}

/// The emoji index once each emoji of `es` is upserted in order for `guild`.
pub open spec fn emoji_index_after(
    items: Map<u64, OwnedItem<CachedEmoji>>,
    idx: Map<u64, Set<u64>>,
    guild: u64,
    es: Seq<Emoji>,
) -> Map<u64, Set<u64>>
    decreases es.len(),
{
    if es.len() == 0 {
        idx
    } else {
        let before = es.drop_last();
        index_add(
            detach(
                emoji_items_after(items, guild, before),
                emoji_index_after(items, idx, guild, before),
                es.last().id,
            ),
            guild,
            es.last().id,
        )
    }
}

/// `items2` and `idx2` are `items` and `idx` once `owner` and every id it
/// owned are gone.
pub open spec fn owner_removed<T>(
    items: Map<u64, OwnedItem<T>>,
    idx: Map<u64, Set<u64>>,
    items2: Map<u64, OwnedItem<T>>,
    idx2: Map<u64, Set<u64>>,
    owner: u64,
) -> bool {
    &&& idx2 == idx.remove(owner)
    &&& idx.contains_key(owner) ==> items2 == items.remove_keys(idx[owner])
    &&& !idx.contains_key(owner) ==> items2 == items
}

/// The listed ids that `items` stores under `owner`.
pub open spec fn owned_among<T>(items: Map<u64, OwnedItem<T>>, owner: u64, ids: Seq<u64>) -> Set<u64> {
    Set::new(|x: u64| ids.contains(x) && items.contains_key(x) && items[x].owner == owner)
}

/// The in-memory cache: one store per category, the relationship indexes
/// from owners to the ids they own, the bounded message histories, and the
/// configuration that gates every event.
pub struct InMemoryCache {
    config: Config,
    emojis: OwnedStore<CachedEmoji>,
    integrations: OwnedStore<GuildIntegration>,
    messages: BoundedStore<CachedMessage>,
    users: HashMap<u64, User>,
}

impl InMemoryCache {
    pub closed spec fn spec_config(self) -> Config {
        self.config
    }

    /// The emoji store with its index from guild to emoji ids.
    pub closed spec fn emoji_store(self) -> OwnedStore<CachedEmoji> {
        self.emojis
    }

    /// The integration store with its index from guild to integration ids.
    pub closed spec fn integration_store(self) -> OwnedStore<GuildIntegration> {
        self.integrations
    }

    /// The message store with its index and histories by channel.
    pub closed spec fn message_store(self) -> BoundedStore<CachedMessage> {
        self.messages
    }

    /// The user store.
    pub closed spec fn users(self) -> Map<u64, User> {
        self.users@
    }

    pub open spec fn wf(self) -> bool {
        &&& self.emoji_store().wf()
        &&& self.integration_store().wf()
        &&& self.message_store().wf()
    }

    /// Whether events of the category are processed.
    pub open spec fn spec_wants(self, kind: ResourceType) -> bool {
        self.spec_config().resource_types.wants(kind)
    }

    /// `next` is this cache once `emoji` is upserted for `guild_id`.
    pub open spec fn emoji_cached(self, next: Self, guild_id: u64, emoji: Emoji) -> bool {
        &&& next.emoji_store().items() == self.emoji_store().items().insert(
            emoji.id,
            OwnedItem { data: cached_emoji(emoji), owner: guild_id },
        )
        &&& next.emoji_store().index() == index_add(self.emoji_store().detached(emoji.id), guild_id, emoji.id)
        &&& next.users() == with_user(self.users(), emoji.user)
        &&& next.spec_config() == self.spec_config()
        &&& next.integration_store() == self.integration_store()
        &&& next.message_store() == self.message_store()
    }

    /// `next` is this cache once the emojis of `guild_id` are replaced by
    /// the full list `emojis`.
    pub open spec fn emojis_replaced(self, next: Self, guild_id: u64, emojis: Seq<Emoji>) -> bool {
        let ids = emoji_ids(emojis);
        let items0 = kept_items(self.emoji_store().items(), self.emoji_store().index(), guild_id, ids);
        let index0 = kept_index(self.emoji_store().index(), guild_id, ids);
        &&& next.emoji_store().items() == emoji_items_after(items0, guild_id, emojis)
        &&& next.emoji_store().index() == emoji_index_after(items0, index0, guild_id, emojis)
        &&& next.users() == users_after(self.users(), emojis)
        &&& next.spec_config() == self.spec_config()
        &&& next.integration_store() == self.integration_store()
        &&& next.message_store() == self.message_store()
    }

    /// `next` is this cache once `integration` is upserted for `guild_id`.
    pub open spec fn integration_cached(self, next: Self, guild_id: u64, integration: GuildIntegration) -> bool {
        &&& next.integration_store().items() == self.integration_store().items().insert(
            integration.id,
            OwnedItem { data: integration, owner: guild_id },
        )
        &&& next.integration_store().index() == index_add(
            self.integration_store().detached(integration.id),
            guild_id,
            integration.id,
        )
        &&& next.users() == self.users()
        &&& next.spec_config() == self.spec_config()
        &&& next.emoji_store() == self.emoji_store()
        &&& next.message_store() == self.message_store()
    }

    /// `next` is this cache once the integration `id` of `guild_id`, if it is
    /// cached, is deleted.
    pub open spec fn integration_deleted(self, next: Self, guild_id: u64, id: u64) -> bool {
        let st = self.integration_store();
        &&& if st.items().contains_key(id) && st.items()[id].owner == guild_id {
            &&& next.integration_store().items() == st.items().remove(id)
            &&& next.integration_store().index() == index_drop(st.index(), guild_id, id)
        } else {
            &&& next.integration_store().items() == st.items()
            &&& next.integration_store().index() == st.index()
        }
        &&& next.users() == self.users()
        &&& next.spec_config() == self.spec_config()
        &&& next.emoji_store() == self.emoji_store()
        &&& next.message_store() == self.message_store()
    }

    /// `next` is this cache once the guild `guild_id` is deleted: its emojis
    /// and its integrations leave their indexes and stores.
    pub open spec fn guild_deleted(self, next: Self, guild_id: u64) -> bool {
        &&& owner_removed(self.emoji_store().items(), self.emoji_store().index(),
            next.emoji_store().items(), next.emoji_store().index(), guild_id)
        &&& owner_removed(self.integration_store().items(), self.integration_store().index(),
            next.integration_store().items(), next.integration_store().index(), guild_id)
        &&& next.users() == self.users()
        &&& next.spec_config() == self.spec_config()
        &&& next.message_store() == self.message_store()
    }

    /// `next` is this cache once `message` is inserted into the history of
    /// its channel under the configured cap; its author goes to the user
    /// store.
    pub open spec fn message_cached(self, next: Self, message: Message) -> bool {
        let st = self.message_store();
        let id = message.id;
        let channel = message.channel_id;
        let item = OwnedItem { data: cached_message(message), owner: channel };
        &&& if st.items().contains_key(id) {
            &&& next.message_store().items() == st.items().insert(
                id,
                OwnedItem { data: cached_message(message), owner: st.items()[id].owner },
            )
            &&& next.message_store().index() == st.index()
            &&& next.message_store().order() == st.order()
        } else {
            let h = history_of(st.order(), channel);
            let cap = self.spec_config().message_cache_size as nat;
            &&& next.message_store().order() == st.order().insert(channel, pushed(h, id, cap))
            &&& match evicted(h, id, cap) {
                Some(e) => {
                    &&& next.message_store().items() == st.items().insert(id, item).remove(e)
                    &&& next.message_store().index() == index_drop(
                        index_add(st.index(), channel, id),
                        channel,
                        e,
                    )
                },
                None => {
                    &&& next.message_store().items() == st.items().insert(id, item)
                    &&& next.message_store().index() == index_add(st.index(), channel, id)
                },
            }
        }
        &&& next.users() == self.users().insert(message.author.id, message.author)
        &&& next.spec_config() == self.spec_config()
        &&& next.emoji_store() == self.emoji_store()
        &&& next.integration_store() == self.integration_store()
    }

    /// `next` is this cache once the message `id` of `channel_id`, if it is
    /// cached, is deleted from the store, the index and the history.
    pub open spec fn message_deleted(self, next: Self, channel_id: u64, id: u64) -> bool {
        let st = self.message_store();
        &&& if st.items().contains_key(id) && st.items()[id].owner == channel_id {
            &&& next.message_store().items() == st.items().remove(id)
            &&& next.message_store().index() == index_drop(st.index(), channel_id, id)
            &&& next.message_store().order().remove(channel_id) == st.order().remove(channel_id)
            &&& next.message_store().order().contains_key(channel_id)
            &&& next.message_store().order()[channel_id].to_set() == st.order()[channel_id].to_set().remove(id)
        } else {
            &&& next.message_store().items() == st.items()
            &&& next.message_store().index() == st.index()
            &&& next.message_store().order() == st.order()
        }
        &&& next.users() == self.users()
        &&& next.spec_config() == self.spec_config()
        &&& next.emoji_store() == self.emoji_store()
        &&& next.integration_store() == self.integration_store()
    }

    /// `next` is this cache once the channel `channel_id` is deleted: its
    /// messages leave the index, the history and the store.
    pub open spec fn channel_deleted(self, next: Self, channel_id: u64) -> bool {
        &&& owner_removed(self.message_store().items(), self.message_store().index(),
            next.message_store().items(), next.message_store().index(), channel_id)
        &&& next.message_store().order() == self.message_store().order().remove(channel_id)
        &&& next.users() == self.users()
        &&& next.spec_config() == self.spec_config()
        &&& next.emoji_store() == self.emoji_store()
        &&& next.integration_store() == self.integration_store()
    }

    /// An empty cache with the default configuration.
    pub fn new() -> (r: InMemoryCache)
        ensures
            r.wf(),
            r.spec_config() == Config::spec_new(),
            r.emoji_store().items().is_empty(),
            r.emoji_store().index().is_empty(),
            r.integration_store().items().is_empty(),
            r.integration_store().index().is_empty(),
            r.message_store().items().is_empty(),
            r.message_store().index().is_empty(),
            r.users().is_empty(),
    {
        InMemoryCache::with_config(Config::new())
    }

    /// An empty cache with the given configuration.
    pub fn with_config(config: Config) -> (r: InMemoryCache)
        ensures
            r.wf(),
            r.spec_config() == config,
            r.emoji_store().items().is_empty(),
            r.emoji_store().index().is_empty(),
            r.integration_store().items().is_empty(),
            r.integration_store().index().is_empty(),
            r.message_store().items().is_empty(),
            r.message_store().index().is_empty(),
            r.users().is_empty(),
    {
        InMemoryCache {
            config,
            emojis: OwnedStore::new(),
            integrations: OwnedStore::new(),
            messages: BoundedStore::new(),
            users: HashMap::new(),
        }
    }

    /// The configuration in force.
    pub fn config(&self) -> (r: Config)
        ensures
            r == self.spec_config(),
    {
        self.config
    }

    /// A mutable reference to the configuration; a change applies to the
    /// events processed after it, and what is cached already stays.
    pub fn config_mut(&mut self) -> (r: &mut Config)
        ensures
            *r == old(self).spec_config(),
            final(self).spec_config() == *final(r),
            final(self).emoji_store() == old(self).emoji_store(),
            final(self).integration_store() == old(self).integration_store(),
            final(self).message_store() == old(self).message_store(),
            final(self).users() == old(self).users(),
    {
        &mut self.config
    }

    /// Whether events of the category are processed.
    pub fn wants(&self, kind: ResourceType) -> (r: bool)
        ensures
            r == self.spec_wants(kind),
    {
        self.config.resource_types.contains(kind)
    }

    /// Gets an emoji by id.
    pub fn emoji(&self, emoji_id: u64) -> (r: Option<&CachedEmoji>)
        ensures
            r is Some <==> self.emoji_store().items().contains_key(emoji_id),
            r matches Some(e) ==> *e == self.emoji_store().items()[emoji_id].data,
    {
        match self.emojis.get(emoji_id) {
            Some(item) => Some(&item.data),
            None => None,
        }
    }

    /// Gets the set of emoji ids of a guild.
    pub fn guild_emojis(&self, guild_id: u64) -> (r: Option<std::collections::HashSet<u64>>)
        ensures
            r is Some <==> self.emoji_store().index().contains_key(guild_id),
            r matches Some(s) ==> s@ == self.emoji_store().index()[guild_id],
    {
        self.emojis.ids_of(guild_id)
    }

    /// How many emojis are cached.
    pub fn emoji_count(&self) -> (r: usize)
        ensures
            r == self.emoji_store().items().len(),
    {
        self.emojis.len()
    }

    /// Gets a user by id.
    pub fn user(&self, user_id: u64) -> (r: Option<&User>)
        ensures
            r is Some <==> self.users().contains_key(user_id),
            r matches Some(u) ==> *u == self.users()[user_id],
    {
        self.users.get(&user_id)
    }

    /// Upserts a user into the user store.
    pub fn cache_user(&mut self, user: User)
        ensures
            final(self).users() == old(self).users().insert(user.id, user),
            final(self).spec_config() == old(self).spec_config(),
            final(self).emoji_store() == old(self).emoji_store(),
            final(self).integration_store() == old(self).integration_store(),
            final(self).message_store() == old(self).message_store(),
    {
        self.users.insert(user.id, user);
    }

    /// Upserts one emoji for a guild. Its embedded user goes to the user
    /// store, and the emoji keeps only the user's id.
    pub fn cache_emoji(&mut self, guild_id: u64, emoji: Emoji)
        requires
            old(self).wf(),
        ensures
            final(self).wf(),
            old(self).emoji_cached(*final(self), guild_id, emoji),
    {
        let id = emoji.id;
        let (cached, user) = CachedEmoji::from_emoji(emoji);
        match user {
            Some(u) => self.cache_user(u),
            None => {},
        }
        self.emojis.upsert(guild_id, id, cached);
    }

    /// Full-set replacement of a guild's emojis: the emojis of the guild that
    /// the list leaves out are removed from the index and the store, then
    /// each emoji of the list is upserted in order.
    pub fn cache_emojis(&mut self, guild_id: u64, emojis: Vec<Emoji>)
        requires
            old(self).wf(),
        ensures
            final(self).wf(),
            old(self).emojis_replaced(*final(self), guild_id, emojis@),
    {
        let mut incoming: Vec<u64> = Vec::new();
        let mut i: usize = 0;
        while i < emojis.len()
            invariant
                i <= emojis.len(),
                incoming@ == emoji_ids(emojis@).take(i as int),
            decreases emojis.len() - i,
        {
            incoming.push(emojis[i].id);
            assert(incoming@ =~= emoji_ids(emojis@).take(i + 1));
            i = i + 1;
        }
        assert(incoming@ =~= emoji_ids(emojis@));
        self.emojis.retain(guild_id, &incoming);
        let ghost items0 = self.emoji_store().items();
        let ghost index0 = self.emoji_store().index();
        let ghost users0 = old(self).users();
        let ghost all = emojis@;
        for emoji in it: emojis.into_iter()
            invariant
                it.seq() == all,
                self.wf(),
                self.emoji_store().items() == emoji_items_after(items0, guild_id, all.take(it.index())),
                self.emoji_store().index() == emoji_index_after(items0, index0, guild_id, all.take(it.index())),
                self.users() == users_after(users0, all.take(it.index())),
                self.spec_config() == old(self).spec_config(),
                self.integration_store() == old(self).integration_store(),
                self.message_store() == old(self).message_store(),
        {
            proof {
                assert(all.take(it.index() + 1).drop_last() == all.take(it.index()));
                assert(all.take(it.index() + 1).last() == emoji);
            }
            self.cache_emoji(guild_id, emoji);
        }
        assert(all.take(all.len() as int) == all);
    }

    /// Upserts an integration for a guild.
    pub fn cache_integration(&mut self, guild_id: u64, integration: GuildIntegration)
        requires
            old(self).wf(),
        ensures
            final(self).wf(),
            old(self).integration_cached(*final(self), guild_id, integration),
    {
        let id = integration.id;
        self.integrations.upsert(guild_id, id, integration);
    }

    /// Deletes an integration of a guild; an unknown one is ignored.
    pub fn delete_integration(&mut self, guild_id: u64, integration_id: u64)
        requires
            old(self).wf(),
        ensures
            final(self).wf(),
            old(self).integration_deleted(*final(self), guild_id, integration_id),
    {
        self.integrations.remove(guild_id, integration_id);
    }

    /// Gets an integration of a guild by id.
    pub fn integration(&self, guild_id: u64, integration_id: u64) -> (r: Option<&GuildIntegration>)
        ensures
            r is Some <==> self.integration_store().items().contains_key(integration_id)
                && self.integration_store().items()[integration_id].owner == guild_id,
            r matches Some(i) ==> *i == self.integration_store().items()[integration_id].data,
    {
        match self.integrations.get(integration_id) {
            Some(item) => {
                if item.owner == guild_id {
                    Some(&item.data)
                } else {
                    None
                }
            },
            None => None,
        }
    }

    /// Gets the set of integration ids of a guild.
    pub fn guild_integrations(&self, guild_id: u64) -> (r: Option<std::collections::HashSet<u64>>)
        ensures
            r is Some <==> self.integration_store().index().contains_key(guild_id),
            r matches Some(s) ==> s@ == self.integration_store().index()[guild_id],
    {
        self.integrations.ids_of(guild_id)
    }

    /// Deletes a guild: its emojis and integrations are removed, index first.
    pub fn delete_guild(&mut self, guild_id: u64)
        requires
            old(self).wf(),
        ensures
            final(self).wf(),
            old(self).guild_deleted(*final(self), guild_id),
    {
        self.emojis.remove_owner(guild_id);
        self.integrations.remove_owner(guild_id);
    }

    /// Inserts a message into the history of its channel. Its author goes to
    /// the user store. When the channel's history then holds more than the
    /// configured number of messages, the oldest one is removed.
    pub fn cache_message(&mut self, message: Message)
        requires
            old(self).wf(),
        ensures
            final(self).wf(),
            old(self).message_cached(*final(self), message),
    {
        let id = message.id;
        let channel_id = message.channel_id;
        let cap = self.config.message_cache_size;
        let (cached, author) = CachedMessage::from_message(message);
        self.cache_user(author);
        self.messages.insert(channel_id, id, cached, cap);
    }

    /// Deletes a message of a channel, wherever it stands in the history; an
    /// unknown one is ignored.
    pub fn delete_message(&mut self, channel_id: u64, message_id: u64)
        requires
            old(self).wf(),
        ensures
            final(self).wf(),
            old(self).message_deleted(*final(self), channel_id, message_id),
    {
        self.messages.remove(channel_id, message_id);
    }

    /// Deletes each listed message of a channel in turn.
    pub fn delete_messages(&mut self, channel_id: u64, message_ids: &Vec<u64>)
        requires
            old(self).wf(),
        ensures
            final(self).wf(),
            final(self).message_store().items() == old(self).message_store().items().remove_keys(
                owned_among(old(self).message_store().items(), channel_id, message_ids@),
            ),
            final(self).message_store().index().dom() == old(self).message_store().index().dom(),
            final(self).message_store().order().dom() == old(self).message_store().order().dom(),
            final(self).users() == old(self).users(),
            final(self).spec_config() == old(self).spec_config(),
            final(self).emoji_store() == old(self).emoji_store(),
            final(self).integration_store() == old(self).integration_store(),
    {
        let mut i: usize = 0;
        while i < message_ids.len()
            invariant
                i <= message_ids.len(),
                self.wf(),
                self.message_store().items() == old(self).message_store().items().remove_keys(
                    owned_among(old(self).message_store().items(), channel_id, message_ids@.take(i as int)),
                ),
                self.message_store().index().dom() == old(self).message_store().index().dom(),
                self.message_store().order().dom() == old(self).message_store().order().dom(),
                self.users() == old(self).users(),
                self.spec_config() == old(self).spec_config(),
                self.emoji_store() == old(self).emoji_store(),
                self.integration_store() == old(self).integration_store(),
            decreases message_ids.len() - i,
        {
            let id = message_ids[i];
            self.delete_message(channel_id, id);
            proof {
                let olds = old(self).message_store().items();
                let pre = message_ids@.take(i as int);
                assert(message_ids@.take(i + 1) == pre.push(id));
                assert forall|x: u64| pre.push(id).contains(x) <==> pre.contains(x) || x == id by {
                    if pre.contains(x) {
                        let k = choose|k: int| 0 <= k < pre.len() && pre[k] == x;
                        assert(pre.push(id)[k] == x);
                    }
                    if x == id {
                        assert(pre.push(id)[pre.len() as int] == x);
                    }
                    if pre.push(id).contains(x) && x != id {
                        let k = choose|k: int| 0 <= k < pre.len() + 1 && pre.push(id)[k] == x;
                        assert(pre[k] == x);
                    }
                }
                assert(owned_among(olds, channel_id, message_ids@.take(i + 1)) =~= owned_among(
                    olds,
                    channel_id,
                    message_ids@.take(i as int),
                ).union(if olds.contains_key(id) && olds[id].owner == channel_id { set![id] } else { Set::empty() }));
                assert(self.message_store().items() =~= olds.remove_keys(
                    owned_among(olds, channel_id, message_ids@.take(i + 1)),
                ));
                assert(self.message_store().index().dom() =~= old(self).message_store().index().dom());
                assert(self.message_store().order().dom() =~= old(self).message_store().order().dom());
            }
            i = i + 1;
        }
        assert(message_ids@.take(message_ids.len() as int) == message_ids@);
    }

    /// Deletes a channel: its messages are removed, index and history first.
    pub fn delete_channel(&mut self, channel_id: u64)
        requires
            old(self).wf(),
        ensures
            final(self).wf(),
            old(self).channel_deleted(*final(self), channel_id),
    {
        self.messages.remove_owner(channel_id);
    }

    /// Gets a message by id.
    pub fn message(&self, message_id: u64) -> (r: Option<&CachedMessage>)
        ensures
            r is Some <==> self.message_store().items().contains_key(message_id),
            r matches Some(m) ==> *m == self.message_store().items()[message_id].data,
    {
        match self.messages.get(message_id) {
            Some(item) => Some(&item.data),
            None => None,
        }
    }

    /// The message ids of a channel, oldest first.
    pub fn channel_messages(&self, channel_id: u64) -> (r: Option<Vec<u64>>)
        ensures
            r is Some <==> self.message_store().order().contains_key(channel_id),
            r matches Some(v) ==> v@ == self.message_store().order()[channel_id],
    {
        self.messages.history(channel_id)
    }

    /// How many messages are cached.
    pub fn message_count(&self) -> (r: usize)
        ensures
            r == self.message_store().items().len(),
    {
        self.messages.len()
    }

    /// How many integrations are cached.
    pub fn integration_count(&self) -> (r: usize)
        ensures
            r == self.integration_store().items().len(),
    {
        self.integrations.len()
    }
}

} // verus!
