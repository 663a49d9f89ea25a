use vstd::prelude::*;

verus! {

/// One category of cached resource.
///
/// For example, enabling `CHANNEL` but not `MESSAGE` will cache created
/// channels, channel updates, and channel deletes, but not their messages.
#[allow(non_camel_case_types)]
#[derive(Clone, Copy, Debug, PartialEq, Eq, Structural, Hash)]
pub enum ResourceType {
    CHANNEL,
    EMOJI,
    GUILD,
    MEMBER,
    MESSAGE,
    PRESENCE,
    REACTION,
    ROLE,
    USER_CURRENT,
    USER,
    VOICE_STATE,
    STAGE_INSTANCE,
    INTEGRATION,
}

/// The mask with every category bit set.
pub const ALL_RESOURCE_BITS: u64 = 0x1fff;

impl ResourceType {
    /// The single bit that stands for this category.
    pub open spec fn spec_bits(self) -> u64 {
        match self {
            ResourceType::CHANNEL => 1,
            ResourceType::EMOJI => 2,
            ResourceType::GUILD => 4,
            ResourceType::MEMBER => 8,
            ResourceType::MESSAGE => 16,
            ResourceType::PRESENCE => 32,
            ResourceType::REACTION => 64,
            ResourceType::ROLE => 128,
            ResourceType::USER_CURRENT => 256,
            ResourceType::USER => 512,
            ResourceType::VOICE_STATE => 1024,
            ResourceType::STAGE_INSTANCE => 2048,
            ResourceType::INTEGRATION => 4096,
        }
    }

    /// Returns the single bit that stands for this category.
    pub fn bits(&self) -> (r: u64)
        ensures
            r == self.spec_bits(),
    {
        match self {
            ResourceType::CHANNEL => 1,
            ResourceType::EMOJI => 2,
            ResourceType::GUILD => 4,
            ResourceType::MEMBER => 8,
            ResourceType::MESSAGE => 16,
            ResourceType::PRESENCE => 32,
            ResourceType::REACTION => 64,
            ResourceType::ROLE => 128,
            ResourceType::USER_CURRENT => 256,
            ResourceType::USER => 512,
            ResourceType::VOICE_STATE => 1024,
            ResourceType::STAGE_INSTANCE => 2048,
            ResourceType::INTEGRATION => 4096,
        }
    }

    /// The set of every category.
    pub fn all() -> (r: ResourceSet)
        ensures
            r.spec_bits() == ALL_RESOURCE_BITS,
    {
        ResourceSet(ALL_RESOURCE_BITS)
    }

    /// The set of no category.
    pub fn empty() -> (r: ResourceSet)
        ensures
            r.spec_bits() == 0,
    {
        ResourceSet(0)
    }
}

/// A set of categories, as a bit field with one bit per `ResourceType`.
#[derive(Clone, Copy, Debug, PartialEq, Eq, Structural, Hash)]
pub struct ResourceSet(pub u64);

impl ResourceSet {
    /// The raw bits of this set.
    pub open spec fn spec_bits(self) -> u64 {
        self.0
    }

    /// Whether the category's bit is set.
    pub open spec fn wants(self, kind: ResourceType) -> bool {
        self.0 & kind.spec_bits() != 0
    }

    /// Returns the raw bits of this set.
    pub fn bits(&self) -> (r: u64)
        ensures
            r == self.spec_bits(),
    {
        self.0
    }

    /// Builds a set from raw bits, dropping those that name no category.
    pub fn from_bits_truncate(bits: u64) -> (r: ResourceSet)
        ensures
            r.spec_bits() == bits & ALL_RESOURCE_BITS,
    {
        ResourceSet(bits & ALL_RESOURCE_BITS)
    }

    /// Whether no category is set.
    pub fn is_empty(&self) -> (r: bool)
        ensures
            r == (self.spec_bits() == 0),
    {
        self.0 == 0
    }

    /// Whether the category is in the set.
    pub fn contains(&self, kind: ResourceType) -> (r: bool)
        ensures
            r == self.wants(kind),
    {
        self.0 & kind.bits() != 0
    }

    /// Adds the category to the set.
    pub fn insert(&mut self, kind: ResourceType)
        ensures
            final(self).spec_bits() == old(self).spec_bits() | kind.spec_bits(),
    {
        self.0 = self.0 | kind.bits();
    }

    /// Takes the category out of the set.
    pub fn remove(&mut self, kind: ResourceType)
        ensures
            final(self).spec_bits() == old(self).spec_bits() & !kind.spec_bits(),
    {
        self.0 = self.0 & !kind.bits();
    }
}

/// The message history size of a default configuration.
pub const DEFAULT_MESSAGE_CACHE_SIZE: usize = 100;

/// Configuration for an `InMemoryCache`.
#[derive(Clone, Copy, Debug, PartialEq, Eq, Structural)]
pub struct Config {
    /// The categories that are processed into the cache.
    pub resource_types: ResourceSet,
    /// How many messages are kept for each channel.
    pub message_cache_size: usize,
}

impl Config {
    /// The default configuration: every category enabled and a message
    /// history of 100 per channel.
    pub open spec fn spec_new() -> Config {
        Config { resource_types: ResourceSet(ALL_RESOURCE_BITS), message_cache_size: DEFAULT_MESSAGE_CACHE_SIZE }
    }

    /// Create a new default configuration: every category enabled and a
    /// message history of 100 per channel.
    pub fn new() -> (r: Config)
        ensures
            r == Config::spec_new(),
    {
        Config { resource_types: ResourceType::all(), message_cache_size: DEFAULT_MESSAGE_CACHE_SIZE }
    }

    /// Returns the message cache size.
    ///
    /// Defaults to 100.
    pub fn message_cache_size(&self) -> (r: usize)
        ensures
            r == self.message_cache_size,
    {
        self.message_cache_size
    }

    /// Returns a mutable reference to the message cache size.
    pub fn message_cache_size_mut(&mut self) -> (r: &mut usize)
        ensures
            *r == old(self).message_cache_size,
            *final(self) == (Config { message_cache_size: *final(r), ..*old(self) }),
    {
        &mut self.message_cache_size
    }

    /// Returns the resource types enabled.
    ///
    /// Defaults to all resource types.
    pub fn resource_types(&self) -> (r: ResourceSet)
        ensures
            r == self.resource_types,
    {
        self.resource_types
    }

    /// Returns a mutable reference to the resource types enabled.
    pub fn resource_types_mut(&mut self) -> (r: &mut ResourceSet)
        ensures
            *r == old(self).resource_types,
            *final(self) == (Config { resource_types: *final(r), ..*old(self) }),
    {
        &mut self.resource_types
    }
}

impl Default for Config {
    fn default() -> (r: Config)
        ensures
            r == Config::spec_new(),
    {
        Config::new()
    }
}

} // verus!
