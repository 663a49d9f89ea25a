use twilight_cache_inmemory::{Config, ResourceType};

#[test]
fn test_resource_type_const_values() {
    assert_eq!(1, ResourceType::CHANNEL.bits());
    assert_eq!(1 << 1, ResourceType::EMOJI.bits());
    assert_eq!(1 << 2, ResourceType::GUILD.bits());
    assert_eq!(1 << 3, ResourceType::MEMBER.bits());
    assert_eq!(1 << 4, ResourceType::MESSAGE.bits());
    assert_eq!(1 << 5, ResourceType::PRESENCE.bits());
    assert_eq!(1 << 6, ResourceType::REACTION.bits());
    assert_eq!(1 << 7, ResourceType::ROLE.bits());
    assert_eq!(1 << 8, ResourceType::USER_CURRENT.bits());
    assert_eq!(1 << 9, ResourceType::USER.bits());
    assert_eq!(1 << 10, ResourceType::VOICE_STATE.bits());
    assert_eq!(1 << 11, ResourceType::STAGE_INSTANCE.bits());
}

#[test]
fn test_defaults() {
    let conf = Config {
        resource_types: ResourceType::all(),
        message_cache_size: 100,
    };
    let default = Config::default();
    assert_eq!(conf.resource_types, default.resource_types);
    assert_eq!(conf.message_cache_size, default.message_cache_size);
}

#[test]
fn integration_bit_and_full_mask() {
    assert_eq!(1 << 12, ResourceType::INTEGRATION.bits());
    assert_eq!(0x1fff, ResourceType::all().bits());
    assert_eq!(0, ResourceType::empty().bits());
    assert!(ResourceType::empty().is_empty());
}

#[test]
fn mask_insert_remove_contains() {
    let mut mask = ResourceType::all();
    assert!(mask.contains(ResourceType::EMOJI));
    mask.remove(ResourceType::EMOJI);
    assert!(!mask.contains(ResourceType::EMOJI));
    assert!(mask.contains(ResourceType::MESSAGE));
    assert_eq!(0x1fff & !2, mask.bits());
    mask.insert(ResourceType::EMOJI);
    assert_eq!(0x1fff, mask.bits());
}

#[test]
fn mask_from_bits_truncate_drops_unknown_bits() {
    let mask = twilight_cache_inmemory::ResourceSet::from_bits_truncate(u64::MAX);
    assert_eq!(0x1fff, mask.bits());
}

#[test]
fn config_accessors() {
    let mut config = Config::new();
    assert_eq!(100, config.message_cache_size());
    *config.message_cache_size_mut() = 7;
    assert_eq!(7, config.message_cache_size());
    config.resource_types_mut().remove(ResourceType::USER);
    assert!(!config.resource_types().contains(ResourceType::USER));
    assert!(config.resource_types().contains(ResourceType::ROLE));
}
