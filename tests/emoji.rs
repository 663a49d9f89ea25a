use twilight_cache_inmemory::{Emoji, Event, InMemoryCache, User};

fn user(id: u64) -> User {
    User {
        id,
        name: "test".to_owned(),
        discriminator: "0001".to_owned(),
        avatar: None,
        bot: false,
    }
}

fn emoji(id: u64, user: Option<User>) -> Emoji {
    Emoji {
        id,
        animated: false,
        name: "test".to_owned(),
        managed: false,
        require_colons: true,
        roles: Vec::new(),
        user,
        available: true,
    }
}

// The user to do some of the inserts
fn user_mod(id: u64) -> Option<User> {
    if id % 2 == 0 {
        // Only use user for half
        Some(user(1))
    } else {
        None
    }
}

#[test]
fn test_cache_emoji() {
    let mut cache = InMemoryCache::new();

    // Single inserts
    {
        let guild_1_emoji_ids = (1..=10).collect::<Vec<u64>>();
        let guild_1_emoji = guild_1_emoji_ids
            .iter()
            .copied()
            .map(|id| emoji(id, user_mod(id)))
            .collect::<Vec<_>>();

        for emoji in guild_1_emoji {
            cache.cache_emoji(1, emoji);
        }

        for id in guild_1_emoji_ids.iter().cloned() {
            let global_emoji = cache.emoji(id);
            assert!(global_emoji.is_some());
        }

        // Ensure the emoji has been added to the per-guild lookup map
        let guild_emojis = cache.guild_emojis(1);
        assert!(guild_emojis.is_some());
        let guild_emojis = guild_emojis.unwrap();

        assert_eq!(guild_1_emoji_ids.len(), guild_emojis.len());
        assert!(guild_1_emoji_ids.iter().all(|id| guild_emojis.contains(id)));
    }

    // Bulk inserts
    {
        let guild_2_emoji_ids = (11..=20).collect::<Vec<u64>>();
        let guild_2_emojis = guild_2_emoji_ids
            .iter()
            .copied()
            .map(|id| emoji(id, user_mod(id)))
            .collect::<Vec<_>>();
        cache.cache_emojis(2, guild_2_emojis);

        for id in guild_2_emoji_ids.iter().cloned() {
            let global_emoji = cache.emoji(id);
            assert!(global_emoji.is_some());
        }

        let guild_emojis = cache.guild_emojis(2);

        assert!(guild_emojis.is_some());
        let guild_emojis = guild_emojis.unwrap();
        assert_eq!(guild_2_emoji_ids.len(), guild_emojis.len());
        assert!(guild_2_emoji_ids.iter().all(|id| guild_emojis.contains(id)));
    }
}

#[test]
fn test_emoji_removal() {
    let mut cache = InMemoryCache::new();

    let guild_id = 1;

    let emote = emoji(1, None);
    let emote_2 = emoji(2, None);
    let emote_3 = emoji(3, None);

    cache.cache_emoji(guild_id, emote.clone());
    cache.cache_emoji(guild_id, emote_2.clone());
    cache.cache_emoji(guild_id, emote_3.clone());

    cache.update(Event::GuildEmojisUpdate {
        emojis: vec![emote.clone(), emote_3.clone()],
        guild_id,
    });

    assert_eq!(cache.emoji_count(), 2);
    assert_eq!(cache.guild_emojis(guild_id).unwrap().len(), 2);
    assert!(cache.emoji(emote.id).is_some());
    assert!(cache.emoji(emote_2.id).is_none());
    assert!(cache.emoji(emote_3.id).is_some());

    cache.update(Event::GuildEmojisUpdate {
        emojis: vec![emote.clone()],
        guild_id,
    });

    assert_eq!(cache.emoji_count(), 1);
    assert_eq!(cache.guild_emojis(guild_id).unwrap().len(), 1);
    assert!(cache.emoji(emote.id).is_some());
    assert!(cache.emoji(emote_2.id).is_none());

    let emote_4 = emoji(4, None);

    cache.update(Event::GuildEmojisUpdate {
        emojis: vec![emote_4.clone()],
        guild_id,
    });

    assert_eq!(cache.emoji_count(), 1);
    assert_eq!(cache.guild_emojis(guild_id).unwrap().len(), 1);
    assert!(cache.emoji(emote_4.id).is_some());
    assert!(cache.emoji(emote.id).is_none());

    cache.update(Event::GuildEmojisUpdate {
        emojis: vec![],
        guild_id,
    });

    assert_eq!(cache.emoji_count(), 0);
    assert!(cache.guild_emojis(guild_id).unwrap().is_empty());
}

#[test]
fn emoji_user_is_reduced_to_id() {
    let mut cache = InMemoryCache::new();
    cache.cache_emoji(3, emoji(8, Some(user(42))));
    assert_eq!(Some(42), cache.emoji(8).unwrap().user_id);
    assert_eq!(42, cache.user(42).unwrap().id);
    cache.cache_emoji(3, emoji(9, None));
    assert_eq!(None, cache.emoji(9).unwrap().user_id);
}

#[test]
fn emoji_moving_guild_leaves_old_index() {
    let mut cache = InMemoryCache::new();
    cache.cache_emoji(1, emoji(5, None));
    cache.cache_emoji(2, emoji(5, None));
    assert!(cache.guild_emojis(1).unwrap().is_empty());
    assert!(cache.guild_emojis(2).unwrap().contains(&5));
    assert_eq!(1, cache.emoji_count());
}
