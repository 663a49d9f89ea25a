use crate::cache::{emoji_ids, emoji_index_after, emoji_items_after, users_after, InMemoryCache};
use crate::event::Event;
use crate::history::{evicted, history_of, pushed, replay};
use crate::model::{cached_emoji, cached_message, CachedEmoji, Emoji, GuildIntegration, Message, User};
use crate::store::{consistent, detach, index_add, index_drop, kept_index, kept_items, OwnedItem};
use vstd::math::min;
use vstd::prelude::*;

verus! {

/// Inserting new ids one by one under a cap of `cap` leaves exactly the
/// `cap` most recently inserted ids, oldest first (all of them when fewer
/// were inserted).
pub proof fn lemma_history_keeps_latest(ids: Seq<u64>, cap: nat)
    ensures
        replay(ids, cap) == ids.subrange(ids.len() - min(ids.len() as int, cap as int), ids.len() as int),
    decreases ids.len(),
{
    if ids.len() > 0 {
        let p = ids.drop_last();
        lemma_history_keeps_latest(p, cap);
        let h = replay(p, cap);
        if h.len() + 1 > cap {
            assert(h.push(ids.last()).drop_first() =~= ids.subrange(
                ids.len() - min(ids.len() as int, cap as int),
                ids.len() as int,
            ));
        } else {
            assert(h.push(ids.last()) =~= ids.subrange(
                ids.len() - min(ids.len() as int, cap as int),
                ids.len() as int,
            ));
        }
    } else {
        assert(ids.subrange(0, 0) =~= Seq::<u64>::empty());
    }
}

/// With a cap of `n`, inserting `n + 1` ids keeps all but the first.
pub proof fn lemma_history_evicts_first(ids: Seq<u64>, n: nat)
    requires
        ids.len() == n + 1,
    ensures
        replay(ids, n) == ids.drop_first(),
        ids.no_duplicates() ==> !replay(ids, n).contains(ids[0]),
{
    lemma_history_keeps_latest(ids, n);
    assert(ids.subrange(1, ids.len() as int) =~= ids.drop_first());
    if ids.no_duplicates() && replay(ids, n).contains(ids[0]) {
        let k = choose|k: int| 0 <= k < replay(ids, n).len() && replay(ids, n)[k] == ids[0];
        assert(ids[k + 1] == ids[0]);
    }
}

/// A new message appended to a channel whose history is full evicts the
/// oldest message of that channel: it is no longer stored.
pub proof fn lemma_full_history_evicts_oldest(c: InMemoryCache, next: InMemoryCache, m: Message)
    requires
        c.wf(),
        c.message_cached(next, m),
        !c.message_store().items().contains_key(m.id),
        history_of(c.message_store().order(), m.channel_id).len() >= c.spec_config().message_cache_size,
        c.spec_config().message_cache_size > 0,
    ensures
        ({
            let h = history_of(c.message_store().order(), m.channel_id);
            &&& next.message_store().order()[m.channel_id] == h.push(m.id).drop_first()
            &&& !next.message_store().items().contains_key(h[0])
        }),
{
    let h = history_of(c.message_store().order(), m.channel_id);
    let cap = c.spec_config().message_cache_size as nat;
    assert(evicted(h, m.id, cap) == Some(h[0]));
    assert(h.push(m.id)[0] == h[0]);
}

/// Deleting a guild removes every emoji and integration it owned from the
/// stores, and the guild from both indexes.
pub proof fn lemma_guild_delete_cascades(c: InMemoryCache, next: InMemoryCache, guild_id: u64, id: u64)
    requires
        c.wf(),
        c.guild_deleted(next, guild_id),
    ensures
        !next.emoji_store().index().contains_key(guild_id),
        !next.integration_store().index().contains_key(guild_id),
        c.emoji_store().index().contains_key(guild_id) && c.emoji_store().index()[guild_id].contains(id)
            ==> !next.emoji_store().items().contains_key(id),
        c.integration_store().index().contains_key(guild_id) && c.integration_store().index()[guild_id].contains(id)
            ==> !next.integration_store().items().contains_key(id),
        next.emoji_store().items().contains_key(id) ==> next.emoji_store().items()[id].owner != guild_id,
        next.integration_store().items().contains_key(id) ==> next.integration_store().items()[id].owner != guild_id,
{
}

/// The records once `data` is upserted under `id` for `owner`.
pub open spec fn upserted_items<T>(items: Map<u64, OwnedItem<T>>, owner: u64, id: u64, data: T) -> Map<u64, OwnedItem<T>> {
    items.insert(id, OwnedItem { data, owner })
}

/// The index once a record is upserted under `id` for `owner`.
pub open spec fn upserted_index<T>(items: Map<u64, OwnedItem<T>>, idx: Map<u64, Set<u64>>, owner: u64, id: u64) -> Map<u64, Set<u64>> {
    index_add(detach(items, idx, id), owner, id)
}

/// Upserting the same record twice leaves what upserting it once leaves.
pub proof fn lemma_upsert_idempotent<T>(
    items: Map<u64, OwnedItem<T>>,
    idx: Map<u64, Set<u64>>,
    owner: u64,
    id: u64,
    data: T,
)
    ensures
        ({
            let items1 = upserted_items(items, owner, id, data);
            let idx1 = upserted_index(items, idx, owner, id);
            &&& upserted_items(items1, owner, id, data) == items1
            &&& upserted_index(items1, idx1, owner, id) == idx1
        }),
{
    let items1 = upserted_items(items, owner, id, data);
    let idx1 = upserted_index(items, idx, owner, id);
    assert(upserted_items(items1, owner, id, data) =~= items1);
    assert(idx1.contains_key(owner) && idx1[owner].contains(id));
    assert(idx1[owner].remove(id).insert(id) =~= idx1[owner]);
    assert(upserted_index(items1, idx1, owner, id) =~~= idx1);
}

/// Upserts of two different ids commute: either order leaves the same
/// records and the same index.
pub proof fn lemma_upserts_commute<T>(
    items: Map<u64, OwnedItem<T>>,
    idx: Map<u64, Set<u64>>,
    o1: u64,
    id1: u64,
    d1: T,
    o2: u64,
    id2: u64,
    d2: T,
)
    requires
        id1 != id2,
    ensures
        ({
            let items_a = upserted_items(items, o1, id1, d1);
            let idx_a = upserted_index(items, idx, o1, id1);
            let items_b = upserted_items(items, o2, id2, d2);
            let idx_b = upserted_index(items, idx, o2, id2);
            &&& upserted_items(items_a, o2, id2, d2) == upserted_items(items_b, o1, id1, d1)
            &&& upserted_index(items_a, idx_a, o2, id2) == upserted_index(items_b, idx_b, o1, id1)
        }),
{
    let items_a = upserted_items(items, o1, id1, d1);
    let idx_a = upserted_index(items, idx, o1, id1);
    let items_b = upserted_items(items, o2, id2, d2);
    let idx_b = upserted_index(items, idx, o2, id2);
    assert(upserted_items(items_a, o2, id2, d2) =~= upserted_items(items_b, o1, id1, d1));
    let l = upserted_index(items_a, idx_a, o2, id2);
    let r = upserted_index(items_b, idx_b, o1, id1);
    assert(l.dom() =~= r.dom());
    assert forall|g: u64| l.contains_key(g) implies l[g] =~= r[g] by {}
    assert(l =~~= r);
}

/// Applying the same emoji upsert twice leaves what applying it once leaves.
pub proof fn lemma_emoji_upsert_idempotent(
    c: InMemoryCache,
    mid: InMemoryCache,
    next: InMemoryCache,
    guild_id: u64,
    emoji: Emoji,
)
    requires
        c.emoji_cached(mid, guild_id, emoji),
        mid.emoji_cached(next, guild_id, emoji),
    ensures
        next.emoji_store().items() == mid.emoji_store().items(),
        next.emoji_store().index() == mid.emoji_store().index(),
        next.users() == mid.users(),
        next.integration_store() == mid.integration_store(),
        next.message_store() == mid.message_store(),
{
    lemma_upsert_idempotent(
        c.emoji_store().items(),
        c.emoji_store().index(),
        guild_id,
        emoji.id,
        cached_emoji(emoji),
    );
    match emoji.user {
        Some(u) => {
            assert(mid.users().insert(u.id, u) =~= mid.users());
        },
        None => {},
    }
}

/// Applying the same integration upsert twice leaves what applying it once
/// leaves.
pub proof fn lemma_integration_upsert_idempotent(
    c: InMemoryCache,
    mid: InMemoryCache,
    next: InMemoryCache,
    guild_id: u64,
    integration: GuildIntegration,
)
    requires
        c.integration_cached(mid, guild_id, integration),
        mid.integration_cached(next, guild_id, integration),
    ensures
        next.integration_store().items() == mid.integration_store().items(),
        next.integration_store().index() == mid.integration_store().index(),
        next.users() == mid.users(),
        next.emoji_store() == mid.emoji_store(),
        next.message_store() == mid.message_store(),
{
    lemma_upsert_idempotent(
        c.integration_store().items(),
        c.integration_store().index(),
        guild_id,
        integration.id,
        integration,
    );
}

/// Emoji upserts that touch different emoji ids, and different users where
/// both embed one, commute: either order leaves the same cache.
pub proof fn lemma_emoji_upserts_commute(
    c: InMemoryCache,
    a: InMemoryCache,
    ab: InMemoryCache,
    b: InMemoryCache,
    ba: InMemoryCache,
    g1: u64,
    e1: Emoji,
    g2: u64,
    e2: Emoji,
)
    requires
        e1.id != e2.id,
        e1.user is Some && e2.user is Some ==> e1.user->0.id != e2.user->0.id,
        c.emoji_cached(a, g1, e1),
        a.emoji_cached(ab, g2, e2),
        c.emoji_cached(b, g2, e2),
        b.emoji_cached(ba, g1, e1),
    ensures
        ab.emoji_store().items() == ba.emoji_store().items(),
        ab.emoji_store().index() == ba.emoji_store().index(),
        ab.users() == ba.users(),
        ab.spec_config() == ba.spec_config(),
        ab.integration_store() == ba.integration_store(),
        ab.message_store() == ba.message_store(),
{
    lemma_upserts_commute(
        c.emoji_store().items(),
        c.emoji_store().index(),
        g1,
        e1.id,
        cached_emoji(e1),
        g2,
        e2.id,
        cached_emoji(e2),
    );
    assert(ab.users() =~= ba.users());
}

/// An upsert keeps the store and its index consistent.
pub proof fn lemma_upsert_consistent<T>(
    items: Map<u64, OwnedItem<T>>,
    idx: Map<u64, Set<u64>>,
    owner: u64,
    id: u64,
    data: T,
)
    requires
        consistent(items, idx),
    ensures
        consistent(upserted_items(items, owner, id, data), upserted_index(items, idx, owner, id)),
{
    let items1 = upserted_items(items, owner, id, data);
    let idx1 = upserted_index(items, idx, owner, id);
    assert forall|g: u64, x: u64| #[trigger] idx1.contains_key(g) && #[trigger] idx1[g].contains(x) implies
        items1.contains_key(x) && items1[x].owner == g by {
        if x != id {
            assert(idx.contains_key(g) && idx[g].contains(x));
        }
    }
    assert forall|x: u64| #[trigger] items1.contains_key(x) implies idx1.contains_key(items1[x].owner)
        && idx1[items1[x].owner].contains(x) by {
        if x != id {
            assert(items.contains_key(x));
        }
    }
}

/// Cutting an owner's set down to the listed ids, and removing the others
/// from the store, keeps the store and its index consistent.
pub proof fn lemma_kept_consistent<T>(
    items: Map<u64, OwnedItem<T>>,
    idx: Map<u64, Set<u64>>,
    owner: u64,
    keep: Seq<u64>,
)
    requires
        consistent(items, idx),
    ensures
        consistent(
            kept_items(items, idx, owner, keep),
            kept_index(idx, owner, keep),
        ),
        forall|x: u64| #[trigger] kept_items(items, idx, owner, keep).contains_key(x) ==> items.contains_key(x)
            && kept_items(items, idx, owner, keep)[x] == items[x],
        forall|x: u64| #[trigger] items.contains_key(x) && !(items[x].owner == owner && !keep.contains(x))
            ==> kept_items(items, idx, owner, keep).contains_key(x),
{
    let items1 = kept_items(items, idx, owner, keep);
    let idx1 = kept_index(idx, owner, keep);
    if idx.contains_key(owner) {
        assert forall|g: u64, x: u64| #[trigger] idx1.contains_key(g) && #[trigger] idx1[g].contains(x) implies
            items1.contains_key(x) && items1[x].owner == g by {
            assert(idx.contains_key(g) && idx[g].contains(x));
        }
        assert forall|x: u64| #[trigger] items1.contains_key(x) implies idx1.contains_key(items1[x].owner)
            && idx1[items1[x].owner].contains(x) by {
            assert(items.contains_key(x));
        }
        assert forall|x: u64| #[trigger] items.contains_key(x) && !(items[x].owner == owner && !keep.contains(x))
            implies items1.contains_key(x) by {
            assert(idx.contains_key(items[x].owner) && idx[items[x].owner].contains(x));
        }
    }
}

/// What a run of emoji upserts for one guild leaves: the store stays
/// consistent with its index, the listed ids are stored under the guild,
/// and the rest of the store keeps its ids and owners.
pub proof fn lemma_emoji_upserts(
    items: Map<u64, OwnedItem<CachedEmoji>>,
    idx: Map<u64, Set<u64>>,
    guild: u64,
    es: Seq<Emoji>,
)
    requires
        consistent(items, idx),
    ensures
        ({
            let items1 = emoji_items_after(items, guild, es);
            let idx1 = emoji_index_after(items, idx, guild, es);
            let ids = emoji_ids(es);
            &&& consistent(items1, idx1)
            &&& forall|x: u64| #[trigger] items1.contains_key(x) <==> items.contains_key(x) || ids.contains(x)
            &&& forall|x: u64| ids.contains(x) ==> #[trigger] items1[x].owner == guild
            &&& forall|x: u64| !ids.contains(x) && items.contains_key(x) ==> #[trigger] items1[x] == items[x]
            &&& (idx1.contains_key(guild) <==> idx.contains_key(guild) || es.len() > 0)
            &&& forall|o: u64| o != guild ==> (#[trigger] idx1.contains_key(o) <==> idx.contains_key(o))
        }),
    decreases es.len(),
{
    if es.len() > 0 {
        let p = es.drop_last();
        lemma_emoji_upserts(items, idx, guild, p);
        let items0 = emoji_items_after(items, guild, p);
        let idx0 = emoji_index_after(items, idx, guild, p);
        lemma_upsert_consistent(items0, idx0, guild, es.last().id, cached_emoji(es.last()));
        let ids = emoji_ids(es);
        let pids = emoji_ids(p);
        assert(ids =~= pids.push(es.last().id));
        assert forall|x: u64| ids.contains(x) <==> pids.contains(x) || x == es.last().id by {
            if pids.contains(x) {
                let k = choose|k: int| 0 <= k < pids.len() && pids[k] == x;
                assert(ids[k] == x);
            }
            if ids.contains(x) {
                let k = choose|k: int| 0 <= k < ids.len() && ids[k] == x;
                if k < pids.len() {
                    assert(pids[k] == x);
                }
            }
            if x == es.last().id {
                assert(ids[ids.len() - 1] == x);
            }
        }
    }
}

/// Full-set replacement: once a guild's emojis are replaced by a list, the
/// emojis stored under the guild are exactly those of the list, its index
/// set is exactly their ids, and every emoji of the guild that the list
/// leaves out is gone from the store. An empty list leaves the guild's set
/// present and empty where the guild had one.
pub proof fn lemma_full_set_replacement(
    c: InMemoryCache,
    next: InMemoryCache,
    guild_id: u64,
    emojis: Seq<Emoji>,
    x: u64,
)
    requires
        c.wf(),
        c.emojis_replaced(next, guild_id, emojis),
    ensures
        (next.emoji_store().items().contains_key(x) && next.emoji_store().items()[x].owner == guild_id)
            <==> emoji_ids(emojis).contains(x),
        next.emoji_store().index().contains_key(guild_id)
            <==> c.emoji_store().index().contains_key(guild_id) || emojis.len() > 0,
        next.emoji_store().index().contains_key(guild_id) ==> next.emoji_store().index()[guild_id]
            == emoji_ids(emojis).to_set(),
        c.emoji_store().items().contains_key(x) && c.emoji_store().items()[x].owner == guild_id
            && !emoji_ids(emojis).contains(x) ==> !next.emoji_store().items().contains_key(x),
        consistent(next.emoji_store().items(), next.emoji_store().index()),
{
    let items = c.emoji_store().items();
    let idx = c.emoji_store().index();
    let ids = emoji_ids(emojis);
    lemma_kept_consistent(items, idx, guild_id, ids);
    let items0 = kept_items(items, idx, guild_id, ids);
    let idx0 = kept_index(idx, guild_id, ids);
    lemma_emoji_upserts(items0, idx0, guild_id, emojis);
    let items1 = next.emoji_store().items();
    let idx1 = next.emoji_store().index();
    assert forall|y: u64| (items1.contains_key(y) && items1[y].owner == guild_id) <==> ids.contains(y) by {
        if items1.contains_key(y) && items1[y].owner == guild_id && !ids.contains(y) {
            assert(items0.contains_key(y));
            assert(items.contains_key(y) && items[y].owner == guild_id);
            assert(idx.contains_key(guild_id) && idx[guild_id].contains(y));
            assert(!items0.contains_key(y));
        }
    }
    if idx1.contains_key(guild_id) {
        assert forall|y: u64| idx1[guild_id].contains(y) <==> ids.to_set().contains(y) by {
            if idx1[guild_id].contains(y) {
                assert(items1.contains_key(y) && items1[y].owner == guild_id);
            }
            if ids.contains(y) {
                assert(items1.contains_key(y));
                assert(idx1.contains_key(items1[y].owner) && idx1[items1[y].owner].contains(y));
            }
        }
        assert(idx1[guild_id] =~= ids.to_set());
    }
    if items.contains_key(x) && items[x].owner == guild_id && !ids.contains(x) {
        assert(idx.contains_key(guild_id) && idx[guild_id].contains(x));
        assert(!items0.contains_key(x));
    }
}

/// Whether the event carries a record under `id` into one of the stores.
pub open spec fn brings(event: Event, id: u64) -> bool {
    match event {
        Event::GuildEmojisUpdate { emojis, .. } => emoji_ids(emojis@).contains(id),
        Event::IntegrationCreate(i) => i.id == id,
        Event::IntegrationUpdate(i) => i.id == id,
        Event::MessageCreate(m) => m.id == id,
        _ => false,
    }
}

/// A run of emoji upserts stores no id that the run does not list.
pub proof fn lemma_emoji_upserts_store_only_listed(
    items: Map<u64, OwnedItem<CachedEmoji>>,
    guild: u64,
    es: Seq<Emoji>,
    id: u64,
)
    requires
        !items.contains_key(id),
        !emoji_ids(es).contains(id),
    ensures
        !emoji_items_after(items, guild, es).contains_key(id),
    decreases es.len(),
{
    if es.len() > 0 {
        let p = es.drop_last();
        assert(emoji_ids(es)[es.len() - 1] == es.last().id);
        if emoji_ids(p).contains(id) {
            let k = choose|k: int| 0 <= k < p.len() && emoji_ids(p)[k] == id;
            assert(emoji_ids(es)[k] == id);
        }
        lemma_emoji_upserts_store_only_listed(items, guild, p, id);
    }
}

/// A fresh cache holds no record of any category.
pub proof fn lemma_new_cache_is_empty(c: InMemoryCache, id: u64)
    requires
        c.emoji_store().items().is_empty(),
        c.integration_store().items().is_empty(),
        c.message_store().items().is_empty(),
        c.users().is_empty(),
    ensures
        !c.emoji_store().items().contains_key(id),
        !c.integration_store().items().contains_key(id),
        !c.message_store().items().contains_key(id),
        !c.users().contains_key(id),
{
}

/// An event that does not carry a record under `id` leaves `id` absent
/// from every store where it was absent; so an id that no event carried
/// is never found.
pub proof fn lemma_unbrought_id_stays_absent(
    c: InMemoryCache,
    next: InMemoryCache,
    event: Event,
    id: u64,
)
    requires
        c.wf(),
        !c.spec_wants(event.spec_kind()) ==> next == c,
        c.spec_wants(event.spec_kind()) ==> c.applied(next, event),
        !brings(event, id),
    ensures
        !c.emoji_store().items().contains_key(id) ==> !next.emoji_store().items().contains_key(id),
        !c.integration_store().items().contains_key(id) ==> !next.integration_store().items().contains_key(id),
        !c.message_store().items().contains_key(id) ==> !next.message_store().items().contains_key(id),
{
    if c.spec_wants(event.spec_kind()) {
        match event {
            Event::GuildEmojisUpdate { guild_id, emojis } => {
                let items = c.emoji_store().items();
                let idx = c.emoji_store().index();
                let ids = emoji_ids(emojis@);
                if !items.contains_key(id) {
                    lemma_kept_consistent(items, idx, guild_id, ids);
                    lemma_emoji_upserts_store_only_listed(
                        kept_items(items, idx, guild_id, ids),
                        guild_id,
                        emojis@,
                        id,
                    );
                }
            },
            _ => {},
        }
    }
}

/// Applying the same message create twice leaves what applying it once
/// leaves.
pub proof fn lemma_message_create_idempotent(
    c: InMemoryCache,
    mid: InMemoryCache,
    next: InMemoryCache,
    m: Message,
)
    requires
        c.wf(),
        c.message_cached(mid, m),
        mid.message_cached(next, m),
    ensures
        next.message_store().items() == mid.message_store().items(),
        next.message_store().index() == mid.message_store().index(),
        next.message_store().order() == mid.message_store().order(),
        next.users() == mid.users(),
        next.emoji_store() == mid.emoji_store(),
        next.integration_store() == mid.integration_store(),
{
    let st = c.message_store();
    let ms = mid.message_store();
    let id = m.id;
    let ch = m.channel_id;
    assert(mid.users().insert(m.author.id, m.author) =~= mid.users());
    if ms.items().contains_key(id) {
        assert(ms.items()[id].data == cached_message(m));
        assert(ms.items().insert(id, OwnedItem { data: cached_message(m), owner: ms.items()[id].owner })
            =~= ms.items());
    } else {
        let cap = c.spec_config().message_cache_size as nat;
        let h = history_of(st.order(), ch);
        assert(!st.items().contains_key(id));
        if h.contains(id) {
            assert(st.order().contains_key(ch));
            assert(h.to_set().contains(id));
            assert(st.index().contains_key(ch) && st.index()[ch].contains(id));
        }
        assert(evicted(h, id, cap) == Some(id));
        if h.len() > 0 {
            assert(h.push(id)[0] == h[0]);
            assert(h.contains(h[0]));
        }
        assert(h.len() == 0);
        assert(cap == 0);
        assert(ms.order()[ch] =~= Seq::<u64>::empty());
        assert(history_of(ms.order(), ch) =~= Seq::<u64>::empty());
        let item = OwnedItem { data: cached_message(m), owner: ch };
        assert(ms.items().insert(id, item).remove(id) =~= ms.items());
        if st.index().contains_key(ch) {
            assert(!st.index()[ch].contains(id));
        }
        assert(ms.index().contains_key(ch));
        assert(!ms.index()[ch].contains(id));
        assert(ms.index()[ch].insert(id).remove(id) =~= ms.index()[ch]);
        assert(index_drop(index_add(ms.index(), ch, id), ch, id) =~~= ms.index());
        assert(ms.order().insert(ch, pushed(Seq::empty(), id, 0)) =~~= ms.order());
    }
}

/// A run of emoji upserts leaves every id that it does not list as it was.
pub proof fn lemma_emoji_upserts_unlisted(
    items: Map<u64, OwnedItem<CachedEmoji>>,
    guild: u64,
    es: Seq<Emoji>,
    x: u64,
)
    requires
        !emoji_ids(es).contains(x),
    ensures
        emoji_items_after(items, guild, es).contains_key(x) == items.contains_key(x),
        emoji_items_after(items, guild, es)[x] == items[x],
    decreases es.len(),
{
    if es.len() > 0 {
        let p = es.drop_last();
        assert(emoji_ids(es)[es.len() - 1] == es.last().id);
        if emoji_ids(p).contains(x) {
            let k = choose|k: int| 0 <= k < p.len() && emoji_ids(p)[k] == x;
            assert(emoji_ids(es)[k] == x);
        }
        lemma_emoji_upserts_unlisted(items, guild, p, x);
    }
}

/// What a run of emoji upserts stores under a listed id does not depend on
/// what was stored before.
pub proof fn lemma_emoji_upserts_listed(
    a: Map<u64, OwnedItem<CachedEmoji>>,
    b: Map<u64, OwnedItem<CachedEmoji>>,
    guild: u64,
    es: Seq<Emoji>,
    x: u64,
)
    requires
        emoji_ids(es).contains(x),
    ensures
        emoji_items_after(a, guild, es).contains_key(x),
        emoji_items_after(b, guild, es).contains_key(x),
        emoji_items_after(a, guild, es)[x] == emoji_items_after(b, guild, es)[x],
    decreases es.len(),
{
    let p = es.drop_last();
    let k = choose|k: int| 0 <= k < es.len() && emoji_ids(es)[k] == x;
    if x != es.last().id {
        assert(k < p.len());
        assert(emoji_ids(p)[k] == x);
        lemma_emoji_upserts_listed(a, b, guild, p, x);
    }
}

/// Applying the same full emoji list to a guild twice leaves what applying
/// it once leaves.
pub proof fn lemma_full_set_replacement_idempotent(
    c: InMemoryCache,
    mid: InMemoryCache,
    next: InMemoryCache,
    guild_id: u64,
    emojis: Seq<Emoji>,
)
    requires
        c.wf(),
        mid.wf(),
        c.emojis_replaced(mid, guild_id, emojis),
        mid.emojis_replaced(next, guild_id, emojis),
    ensures
        next.emoji_store().items() == mid.emoji_store().items(),
        next.emoji_store().index() == mid.emoji_store().index(),
        next.users() == mid.users(),
        next.integration_store() == mid.integration_store(),
        next.message_store() == mid.message_store(),
{
    let ids = emoji_ids(emojis);
    let items = c.emoji_store().items();
    let idx = c.emoji_store().index();
    let k_items = kept_items(items, idx, guild_id, ids);
    let m_items = mid.emoji_store().items();
    let m_idx = mid.emoji_store().index();
    // The guild's set after the first application is exactly the listed ids,
    // so the second application removes nothing.
    if m_idx.contains_key(guild_id) {
        assert forall|y: u64| m_idx[guild_id].contains(y) implies ids.contains(y) by {
            lemma_full_set_replacement(c, mid, guild_id, emojis, y);
        }
        assert(m_idx[guild_id].filter(|x: u64| !ids.contains(x)) =~= Set::empty());
        assert(m_idx[guild_id].filter(|x: u64| ids.contains(x)) =~= m_idx[guild_id]);
        assert(m_items.remove_keys(Set::empty()) =~= m_items);
        assert(m_idx.insert(guild_id, m_idx[guild_id]) =~~= m_idx);
    }
    assert(kept_items(m_items, m_idx, guild_id, ids) == m_items);
    assert(kept_index(m_idx, guild_id, ids) == m_idx);
    let n_items = next.emoji_store().items();
    let n_idx = next.emoji_store().index();
    assert forall|y: u64| #[trigger] n_items.contains_key(y) == m_items.contains_key(y)
        && (m_items.contains_key(y) ==> n_items[y] == m_items[y]) by {
        if ids.contains(y) {
            lemma_emoji_upserts_listed(m_items, k_items, guild_id, emojis, y);
        } else {
            lemma_emoji_upserts_unlisted(m_items, guild_id, emojis, y);
        }
    }
    assert(n_items =~= m_items);
    lemma_emoji_upserts(m_items, m_idx, guild_id, emojis);
    assert forall|o: u64| #[trigger] n_idx.contains_key(o) == m_idx.contains_key(o) by {
        if o == guild_id && emojis.len() > 0 {
            lemma_full_set_replacement(c, mid, guild_id, emojis, o);
        }
    }
    assert forall|o: u64| n_idx.contains_key(o) implies #[trigger] n_idx[o] =~= m_idx[o] by {
        assert forall|y: u64| n_idx[o].contains(y) <==> m_idx[o].contains(y) by {
            if n_idx[o].contains(y) {
                assert(n_items.contains_key(y) && n_items[y].owner == o);
                assert(m_idx.contains_key(m_items[y].owner) && m_idx[m_items[y].owner].contains(y));
            }
            if m_idx[o].contains(y) {
                assert(m_items.contains_key(y) && m_items[y].owner == o);
                assert(n_idx.contains_key(n_items[y].owner) && n_idx[n_items[y].owner].contains(y));
            }
        }
    }
    assert(n_idx =~~= m_idx);
    let u0 = c.users();
    let u1 = mid.users();
    let u2 = next.users();
    assert forall|u: u64| #[trigger] u2.contains_key(u) == u1.contains_key(u)
        && (u1.contains_key(u) ==> u2[u] == u1[u]) by {
        if embeds_user(emojis, u) {
            lemma_users_after_listed(u1, u0, emojis, u);
        } else {
            lemma_users_after_unlisted(u1, emojis, u);
        }
    }
    assert(u2 =~= u1);
}

/// Whether an emoji of the list embeds a user with id `u`.
pub open spec fn embeds_user(es: Seq<Emoji>, u: u64) -> bool {
    exists|k: int| 0 <= k < es.len() && (#[trigger] es[k]).user is Some && es[k].user->0.id == u
}

/// Upserting the users of a list leaves every user that it does not embed
/// as it was.
pub proof fn lemma_users_after_unlisted(users: Map<u64, User>, es: Seq<Emoji>, u: u64)
    requires
        !embeds_user(es, u),
    ensures
        users_after(users, es).contains_key(u) == users.contains_key(u),
        users_after(users, es)[u] == users[u],
    decreases es.len(),
{
    if es.len() > 0 {
        let p = es.drop_last();
        if embeds_user(p, u) {
            let k = choose|k: int| 0 <= k < p.len() && (#[trigger] p[k]).user is Some && p[k].user->0.id == u;
            assert(es[k] == p[k]);
        }
        assert(es[es.len() - 1] == es.last());
        lemma_users_after_unlisted(users, p, u);
    }
}

/// What upserting the users of a list stores under an embedded user id does
/// not depend on what was stored before.
pub proof fn lemma_users_after_listed(
    a: Map<u64, User>,
    b: Map<u64, User>,
    es: Seq<Emoji>,
    u: u64,
)
    requires
        embeds_user(es, u),
    ensures
        users_after(a, es).contains_key(u),
        users_after(b, es).contains_key(u),
        users_after(a, es)[u] == users_after(b, es)[u],
    decreases es.len(),
{
    let p = es.drop_last();
    let k = choose|k: int| 0 <= k < es.len() && (#[trigger] es[k]).user is Some && es[k].user->0.id == u;
    if !(es.last().user is Some && es.last().user->0.id == u) {
        assert(k < p.len());
        assert(p[k] == es[k]);
        lemma_users_after_listed(a, b, p, u);
    }
}

/// An integration upsert and an integration delete of a different id
/// commute: either order leaves the same cache.
pub proof fn lemma_integration_upsert_delete_commute(
    c: InMemoryCache,
    a: InMemoryCache,
    ab: InMemoryCache,
    b: InMemoryCache,
    ba: InMemoryCache,
    g1: u64,
    integration: GuildIntegration,
    g2: u64,
    id2: u64,
)
    requires
        c.wf(),
        integration.id != id2,
        c.integration_cached(a, g1, integration),
        a.integration_deleted(ab, g2, id2),
        c.integration_deleted(b, g2, id2),
        b.integration_cached(ba, g1, integration),
    ensures
        ab.integration_store().items() == ba.integration_store().items(),
        ab.integration_store().index() == ba.integration_store().index(),
        ab.users() == ba.users(),
        ab.spec_config() == ba.spec_config(),
        ab.emoji_store() == ba.emoji_store(),
        ab.message_store() == ba.message_store(),
{
    let items = c.integration_store().items();
    let idx = c.integration_store().index();
    let id1 = integration.id;
    let it = OwnedItem { data: integration, owner: g1 };
    if items.contains_key(id2) && items[id2].owner == g2 {
        assert(idx.contains_key(g2) && idx[g2].contains(id2));
        assert(items.insert(id1, it).remove(id2) =~= items.remove(id2).insert(id1, it));
        assert(detach(items.remove(id2), index_drop(idx, g2, id2), id1)
            =~~= index_drop(detach(items, idx, id1), g2, id2));
        let l = index_drop(index_add(detach(items, idx, id1), g1, id1), g2, id2);
        let r = index_add(index_drop(detach(items, idx, id1), g2, id2), g1, id1);
        assert(l.dom() =~= r.dom());
        assert forall|g: u64| l.contains_key(g) implies l[g] =~= r[g] by {}
        assert(l =~~= r);
    }
}

} // verus!
