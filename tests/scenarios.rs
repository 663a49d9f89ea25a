use std::collections::HashSet;
use twilight_cache_inmemory::{
    Config, Emoji, Event, GuildIntegration, InMemoryCache, Message, ResourceType, User,
};

fn user(id: u64) -> User {
    User {
        id,
        name: format!("user{}", id),
        discriminator: "0001".to_owned(),
        avatar: None,
        bot: false,
    }
}

fn emoji(id: u64) -> Emoji {
    Emoji {
        id,
        animated: false,
        name: format!("emoji{}", id),
        managed: false,
        require_colons: true,
        roles: vec![1, 2],
        user: None,
        available: true,
    }
}

fn integration(id: u64, guild_id: Option<u64>) -> GuildIntegration {
    GuildIntegration {
        id,
        guild_id,
        name: format!("integration{}", id),
        kind: "twitch".to_owned(),
        enabled: true,
        role_id: None,
    }
}

fn message(id: u64, channel_id: u64) -> Message {
    Message {
        id,
        channel_id,
        author: user(100 + id),
        content: format!("message {}", id),
    }
}

fn set(ids: &[u64]) -> HashSet<u64> {
    ids.iter().copied().collect()
}

fn replace(cache: &mut InMemoryCache, guild_id: u64, ids: &[u64]) {
    cache.update(Event::GuildEmojisUpdate {
        guild_id,
        emojis: ids.iter().map(|id| emoji(*id)).collect(),
    });
}

#[test]
fn full_set_insert_update_and_empty() {
    let mut cache = InMemoryCache::new();
    let all: Vec<u64> = (1..=10).collect();
    replace(&mut cache, 1, &all);
    assert_eq!(10, cache.emoji_count());
    assert_eq!(Some(set(&all)), cache.guild_emojis(1));

    replace(&mut cache, 1, &[1, 3]);
    assert_eq!(2, cache.emoji_count());
    assert_eq!(Some(set(&[1, 3])), cache.guild_emojis(1));

    replace(&mut cache, 1, &[]);
    assert_eq!(0, cache.emoji_count());
    assert_eq!(Some(HashSet::new()), cache.guild_emojis(1));
}

#[test]
fn full_set_diff_replaces_exactly() {
    let mut cache = InMemoryCache::new();
    replace(&mut cache, 7, &[1, 2, 3]);
    replace(&mut cache, 7, &[2, 3, 4]);
    assert_eq!(Some(set(&[2, 3, 4])), cache.guild_emojis(7));
    assert!(cache.emoji(1).is_none());
    assert!(cache.emoji(4).is_some());
    assert_eq!(3, cache.emoji_count());
}

#[test]
fn empty_full_set_for_unknown_guild_adds_no_index() {
    let mut cache = InMemoryCache::new();
    replace(&mut cache, 9, &[]);
    assert_eq!(None, cache.guild_emojis(9));
}

#[test]
fn singleton_create_then_delete() {
    let mut cache = InMemoryCache::new();
    cache.update(Event::IntegrationCreate(integration(9, Some(5))));
    assert!(cache.integration(5, 9).is_some());
    assert!(cache.guild_integrations(5).unwrap().contains(&9));
    cache.update(Event::IntegrationDelete { guild_id: 5, id: 9 });
    assert!(!cache.guild_integrations(5).unwrap().contains(&9));
    assert!(cache.integration(5, 9).is_none());
    assert_eq!(0, cache.integration_count());
}

#[test]
fn integration_without_guild_is_ignored() {
    let mut cache = InMemoryCache::new();
    cache.update(Event::IntegrationUpdate(integration(3, None)));
    assert_eq!(0, cache.integration_count());
}

#[test]
fn integration_delete_for_other_guild_is_ignored() {
    let mut cache = InMemoryCache::new();
    cache.update(Event::IntegrationUpdate(integration(3, Some(1))));
    cache.update(Event::IntegrationDelete { guild_id: 2, id: 3 });
    assert!(cache.integration(1, 3).is_some());
    assert!(cache.integration(2, 3).is_none());
}

#[test]
fn history_cap_two_keeps_latest() {
    let mut config = Config::new();
    *config.message_cache_size_mut() = 2;
    let mut cache = InMemoryCache::with_config(config);
    for id in 1..=3 {
        cache.update(Event::MessageCreate(message(id, 1)));
    }
    assert_eq!(Some(vec![2, 3]), cache.channel_messages(1));
    assert!(cache.message(1).is_none());
    assert!(cache.message(2).is_some());
    assert!(cache.message(3).is_some());
    assert_eq!(2, cache.message_count());
}

#[test]
fn history_cap_zero_retains_nothing() {
    let mut config = Config::new();
    *config.message_cache_size_mut() = 0;
    let mut cache = InMemoryCache::with_config(config);
    cache.update(Event::MessageCreate(message(1, 4)));
    assert!(cache.message(1).is_none());
    assert_eq!(0, cache.message_count());
    assert_eq!(Some(Vec::new()), cache.channel_messages(4));
}

#[test]
fn eviction_of_n_plus_one() {
    let mut config = Config::new();
    *config.message_cache_size_mut() = 4;
    let mut cache = InMemoryCache::with_config(config);
    for id in 10..15 {
        cache.cache_message(message(id, 2));
    }
    assert_eq!(Some(vec![11, 12, 13, 14]), cache.channel_messages(2));
    assert!(cache.message(10).is_none());
}

#[test]
fn message_delete_anywhere_in_history() {
    let mut cache = InMemoryCache::new();
    for id in 1..=3 {
        cache.cache_message(message(id, 1));
    }
    cache.update(Event::MessageDelete { channel_id: 1, id: 2 });
    assert_eq!(Some(vec![1, 3]), cache.channel_messages(1));
    assert!(cache.message(2).is_none());
    cache.update(Event::MessageDeleteBulk { channel_id: 1, ids: vec![1, 3, 99] });
    assert_eq!(Some(Vec::new()), cache.channel_messages(1));
    assert_eq!(0, cache.message_count());
}

#[test]
fn message_author_is_cached() {
    let mut cache = InMemoryCache::new();
    cache.cache_message(message(5, 1));
    assert_eq!(105, cache.message(5).unwrap().author_id);
    assert_eq!("user105", cache.user(105).unwrap().name);
}

#[test]
fn channel_delete_cascades() {
    let mut cache = InMemoryCache::new();
    cache.cache_message(message(1, 1));
    cache.cache_message(message(2, 2));
    cache.update(Event::ChannelDelete { id: 1 });
    assert!(cache.message(1).is_none());
    assert!(cache.message(2).is_some());
    assert_eq!(None, cache.channel_messages(1));
}

#[test]
fn guild_delete_cascades() {
    let mut cache = InMemoryCache::new();
    replace(&mut cache, 1, &[1, 2]);
    replace(&mut cache, 2, &[3]);
    cache.cache_integration(1, integration(4, Some(1)));
    cache.update(Event::GuildDelete { id: 1 });
    assert!(cache.emoji(1).is_none());
    assert!(cache.emoji(2).is_none());
    assert!(cache.emoji(3).is_some());
    assert_eq!(None, cache.guild_emojis(1));
    assert_eq!(None, cache.guild_integrations(1));
    assert!(cache.integration(1, 4).is_none());
}

#[test]
fn never_inserted_ids_are_absent() {
    let mut cache = InMemoryCache::new();
    assert!(cache.emoji(1).is_none());
    assert!(cache.integration(1, 1).is_none());
    assert!(cache.message(1).is_none());
    assert!(cache.user(1).is_none());
    replace(&mut cache, 1, &[2]);
    assert!(cache.emoji(1).is_none());
}

#[test]
fn applying_twice_equals_once() {
    let mut cache = InMemoryCache::new();
    replace(&mut cache, 1, &[1, 2]);
    replace(&mut cache, 1, &[1, 2]);
    assert_eq!(2, cache.emoji_count());
    assert_eq!(Some(set(&[1, 2])), cache.guild_emojis(1));
    cache.update(Event::MessageCreate(message(1, 1)));
    cache.update(Event::MessageCreate(message(1, 1)));
    assert_eq!(Some(vec![1]), cache.channel_messages(1));
    cache.update(Event::IntegrationCreate(integration(1, Some(1))));
    cache.update(Event::IntegrationCreate(integration(1, Some(1))));
    assert_eq!(1, cache.integration_count());
}

#[test]
fn disabled_category_is_not_cached() {
    let mut cache = InMemoryCache::new();
    cache.config_mut().resource_types.remove(ResourceType::EMOJI);
    replace(&mut cache, 1, &[1, 2]);
    assert_eq!(0, cache.emoji_count());
    assert_eq!(None, cache.guild_emojis(1));
    cache.config_mut().resource_types.remove(ResourceType::MESSAGE);
    cache.update(Event::MessageCreate(message(1, 1)));
    assert_eq!(0, cache.message_count());
    assert!(cache.user(101).is_none());
}

#[test]
fn disabling_later_keeps_cached_data() {
    let mut cache = InMemoryCache::new();
    replace(&mut cache, 1, &[1]);
    cache.config_mut().resource_types.remove(ResourceType::EMOJI);
    replace(&mut cache, 1, &[]);
    assert!(cache.emoji(1).is_some());
    assert!(!cache.wants(ResourceType::EMOJI));
}

#[test]
fn disjoint_upserts_commute() {
    let mut a = InMemoryCache::new();
    a.cache_emoji(1, emoji(1));
    a.cache_emoji(2, emoji(2));
    let mut b = InMemoryCache::new();
    b.cache_emoji(2, emoji(2));
    b.cache_emoji(1, emoji(1));
    assert_eq!(a.guild_emojis(1), b.guild_emojis(1));
    assert_eq!(a.guild_emojis(2), b.guild_emojis(2));
    assert_eq!(a.emoji(1), b.emoji(1));
    assert_eq!(a.emoji(2), b.emoji(2));
}
