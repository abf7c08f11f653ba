//! The node's view of the replicated service map, and the edits it makes to it.
use vstd::prelude::*;

use crate::data::crdt::{
    counter_of, decoded_services, decoded_settled, derive_add_ctx, derive_rm_ctx, map_apply,
    map_clock, map_clone, map_from_json, map_get, map_keys, map_merge, map_new, map_read_ctx,
    map_to_json, map_update, merged_services, orswot_clock, services, set_add, set_contains, set_read, set_read_ctx,
    set_rm, settled, single_add, single_rm, string_views, under, vclock_get, ascending, AbilitiesMap, UrlSet,
    UrlSetOp, EditCtx,
};
use crate::data::{entry_pairs, Ability, NodeId, UrlEntry, URL};
use crate::error::Error;

verus! {

#[verifier::external_type_specification]
#[verifier::external_body]
pub struct ExThreadRng(rand::rngs::ThreadRng);

/// `rand::thread_rng`: the thread's random number generator.
#[verifier::external_body]
fn thread_rng() -> (r: rand::rngs::ThreadRng) {
    rand::thread_rng()
}

/// `rand::Rng::gen_range` over `0..len`: some index below `len`, chosen at random.
/// It panics on an empty range, which is excluded.
#[verifier::external_body]
fn gen_index(rng: &mut rand::rngs::ThreadRng, len: usize) -> (r: usize)
    requires
        len > 0,
    ensures
        r < len,
{
    rand::Rng::gen_range(rng, 0..len)
}

/// Whether `services` holds every (URL, ability) entry of `entries`: the ability
/// is present and its set holds the URL.
pub open spec fn offers_all(
    entries: Seq<(Seq<char>, Seq<char>)>,
    services: Map<Seq<char>, Set<Seq<char>>>,
) -> bool {
    forall|i: int|
        0 <= i < entries.len() ==> {
            &&& services.contains_key(#[trigger] entries[i].1)
            &&& services[entries[i].1].contains(entries[i].0)
        }
}

/// A map offers a list of entries exactly when, for each entry, the URL is a
/// member of the set under the entry's ability: a set that holds other URLs for
/// that ability does not count.
pub proof fn lemma_offers_all_is_membership(
    entries: Seq<(Seq<char>, Seq<char>)>,
    services: Map<Seq<char>, Set<Seq<char>>>,
)
    ensures
        offers_all(entries, services) <==> forall|i: int|
            0 <= i < entries.len() ==> #[trigger] under(services, entries[i].1).contains(entries[i].0),
{
    if offers_all(entries, services) {
        assert forall|i: int| 0 <= i < entries.len() implies #[trigger] under(
            services,
            entries[i].1,
        ).contains(entries[i].0) by {
            assert(services.contains_key(entries[i].1));
        }
    }
    if forall|i: int|
        0 <= i < entries.len() ==> #[trigger] under(services, entries[i].1).contains(entries[i].0) {
        assert forall|i: int| 0 <= i < entries.len() implies {
            &&& services.contains_key(#[trigger] entries[i].1)
            &&& services[entries[i].1].contains(entries[i].0)
        } by {
            assert(under(services, entries[i].1).contains(entries[i].0));
        }
    }
}

/// `services` with each (URL, ability) entry of `entries` added, in order: the
/// ability becomes present and its set gains the URL.
pub open spec fn with_entries(
    services: Map<Seq<char>, Set<Seq<char>>>,
    entries: Seq<(Seq<char>, Seq<char>)>,
) -> Map<Seq<char>, Set<Seq<char>>>
    decreases entries.len(),
{
    if entries.len() == 0 {
        services
    } else {
        let before = with_entries(services, entries.drop_last());
        let e = entries.last();
        before.insert(e.1, under(before, e.1).insert(e.0))
    }
}

/// The URLs that `entries` list under `ability`.
pub open spec fn urls_listed(entries: Seq<(Seq<char>, Seq<char>)>, ability: Seq<char>) -> Set<Seq<char>> {
    Set::new(|url: Seq<char>| exists|i: int| 0 <= i < entries.len() && entries[i] == (url, ability))
}

/// Whether `entries` list some URL under `ability`.
pub open spec fn lists(entries: Seq<(Seq<char>, Seq<char>)>, ability: Seq<char>) -> bool {
    exists|i: int| 0 <= i < entries.len() && entries[i].1 == ability
}

/// A count of edits as an edit counter holds it: it stops at `u64::MAX`.
pub open spec fn capped(n: nat) -> nat {
    if n <= u64::MAX {
        n
    } else {
        u64::MAX as nat
    }
}

/// The larger of two counters: a counter after a merge.
pub open spec fn joined(a: nat, b: nat) -> nat {
    if a >= b {
        a
    } else {
        b
    }
}

/// `services` with `url` added under `ability` (which becomes present).
pub open spec fn with_url(
    services: Map<Seq<char>, Set<Seq<char>>>,
    ability: Seq<char>,
    url: Seq<char>,
) -> Map<Seq<char>, Set<Seq<char>>> {
    services.insert(ability, under(services, ability).insert(url))
}

/// `services` with `url` taken out from under `ability` (which stays or becomes
/// present, possibly with no URL).
pub open spec fn without_url(
    services: Map<Seq<char>, Set<Seq<char>>>,
    ability: Seq<char>,
    url: Seq<char>,
) -> Map<Seq<char>, Set<Seq<char>>> {
    services.insert(ability, under(services, ability).remove(url))
}

/// Adding a URL that is already there changes nothing: adding it twice is
/// adding it once.
pub proof fn lemma_insert_idempotent(
    services: Map<Seq<char>, Set<Seq<char>>>,
    ability: Seq<char>,
    url: Seq<char>,
)
    ensures
        with_url(with_url(services, ability, url), ability, url) == with_url(services, ability, url),
{
    let once = with_url(services, ability, url);
    assert(under(once, ability).insert(url) =~= under(once, ability));
    assert(with_url(once, ability, url) =~= once);
}

/// Removing a URL undoes adding it, where it was not there before: every
/// ability then holds the URLs it held (an ability absent before holds none).
pub proof fn lemma_remove_undoes_insert(
    services: Map<Seq<char>, Set<Seq<char>>>,
    ability: Seq<char>,
    url: Seq<char>,
)
    requires
        !under(services, ability).contains(url),
    ensures
        forall|k: Seq<char>|
            #[trigger] under(without_url(with_url(services, ability, url), ability, url), k) == under(
                services,
                k,
            ),
{
    assert forall|k: Seq<char>|
        #[trigger] under(without_url(with_url(services, ability, url), ability, url), k) == under(
            services,
            k,
        ) by {
        if k == ability {
            assert(under(services, ability).insert(url).remove(url) =~= under(services, ability));
        }
    }
}

/// What adding entries gives, all at once: an ability is present where it was or
/// where an entry lists it, and holds its former URLs and the listed ones.
proof fn lemma_with_entries_contents(
    services: Map<Seq<char>, Set<Seq<char>>>,
    entries: Seq<(Seq<char>, Seq<char>)>,
)
    ensures
        with_entries(services, entries) == Map::new(
            |k: Seq<char>| services.contains_key(k) || lists(entries, k),
            |k: Seq<char>| under(services, k).union(urls_listed(entries, k)),
        ),
    decreases entries.len(),
{
    let target = Map::new(
        |k: Seq<char>| services.contains_key(k) || lists(entries, k),
        |k: Seq<char>| under(services, k).union(urls_listed(entries, k)),
    );
    if entries.len() == 0 {
        assert forall|k: Seq<char>| #[trigger] target.contains_key(k) implies services.contains_key(k) by {
            assert(!lists(entries, k));
        }
        assert forall|k: Seq<char>| services.contains_key(k) implies target[k] == services[k] by {
            assert(urls_listed(entries, k) =~= Set::<Seq<char>>::empty());
            assert(under(services, k).union(urls_listed(entries, k)) =~= services[k]);
        }
        assert(with_entries(services, entries) =~= target);
    } else {
        let prefix = entries.drop_last();
        let e = entries.last();
        lemma_with_entries_contents(services, prefix);
        let before = with_entries(services, prefix);
        let result = before.insert(e.1, under(before, e.1).insert(e.0));
        assert forall|k: Seq<char>| lists(entries, k) <==> (lists(prefix, k) || k == e.1) by {
            if lists(entries, k) {
                let i = choose|i: int| 0 <= i < entries.len() && entries[i].1 == k;
                if i < prefix.len() {
                    assert(prefix[i] == entries[i]);
                }
            }
            if lists(prefix, k) {
                let i = choose|i: int| 0 <= i < prefix.len() && prefix[i].1 == k;
                assert(entries[i] == prefix[i]);
            }
            if k == e.1 {
                assert(entries[entries.len() - 1].1 == k);
            }
        }
        assert forall|k: Seq<char>| #[trigger] urls_listed(entries, k) == (if k == e.1 {
            urls_listed(prefix, k).insert(e.0)
        } else {
            urls_listed(prefix, k)
        }) by {
            assert forall|url: Seq<char>| urls_listed(entries, k).contains(url) <==> (if k == e.1 {
                urls_listed(prefix, k).insert(e.0)
            } else {
                urls_listed(prefix, k)
            }).contains(url) by {
                if urls_listed(entries, k).contains(url) {
                    let i = choose|i: int| 0 <= i < entries.len() && entries[i] == (url, k);
                    if i < prefix.len() {
                        assert(prefix[i] == entries[i]);
                        assert(urls_listed(prefix, k).contains(url));
                    }
                }
                if urls_listed(prefix, k).contains(url) {
                    let i = choose|i: int| 0 <= i < prefix.len() && prefix[i] == (url, k);
                    assert(entries[i] == prefix[i]);
                }
                if k == e.1 && url == e.0 {
                    assert(entries[entries.len() - 1] == (url, k));
                }
            }
            assert(urls_listed(entries, k) =~= (if k == e.1 {
                urls_listed(prefix, k).insert(e.0)
            } else {
                urls_listed(prefix, k)
            }));
        }
        assert forall|k: Seq<char>| #[trigger] result.contains_key(k) implies result[k] == target[k] by {
            if k == e.1 {
                assert(result[k] =~= target[k]);
            } else {
                assert(result[k] == before[k]);
            }
        }
        assert(result =~= target);
    }
}

/// Registering is idempotent: adding a node's entries a second time changes
/// nothing, whatever the map held before.
pub proof fn lemma_register_idempotent(
    services: Map<Seq<char>, Set<Seq<char>>>,
    entries: Seq<(Seq<char>, Seq<char>)>,
)
    ensures
        with_entries(with_entries(services, entries), entries) == with_entries(services, entries),
{
    let once = with_entries(services, entries);
    lemma_with_entries_contents(services, entries);
    lemma_with_entries_contents(once, entries);
    assert forall|k: Seq<char>| #[trigger] once.contains_key(k) implies under(once, k).union(
        urls_listed(entries, k),
    ) == once[k] by {
        assert(under(once, k).union(urls_listed(entries, k)) =~= once[k]);
    }
    assert(with_entries(once, entries) =~= once);
}

/// Every entry that was added is in the result.
proof fn lemma_with_entries_offers(
    services: Map<Seq<char>, Set<Seq<char>>>,
    entries: Seq<(Seq<char>, Seq<char>)>,
)
    ensures
        offers_all(entries, with_entries(services, entries)),
{
    lemma_with_entries_contents(services, entries);
    assert forall|i: int| 0 <= i < entries.len() implies {
        &&& with_entries(services, entries).contains_key(#[trigger] entries[i].1)
        &&& with_entries(services, entries)[entries[i].1].contains(entries[i].0)
    } by {
        assert(lists(entries, entries[i].1));
        assert(urls_listed(entries, entries[i].1).contains(entries[i].0));
    }
}

/// A node's copy of the service map, with the node's id and the services it offers.
pub struct AbilitiesStore {
    id: NodeId,
    urls: Vec<UrlEntry>,
    map: AbilitiesMap,
}

impl AbilitiesStore {
    /// The id of the node that owns the store; it is the node's actor in the map.
    pub closed spec fn node_id(&self) -> NodeId {
        self.id
    }

    /// The (URL, ability) entries the node offers.
    pub closed spec fn own_urls(&self) -> Seq<(Seq<char>, Seq<char>)> {
        entry_pairs(self.urls@)
    }

    /// What the store's map holds: ability -> URLs.
    pub closed spec fn held(&self) -> Map<Seq<char>, Set<Seq<char>>> {
        services(self.map)
    }

    /// Whether the store's map is settled (see `crdt::settled`): then this node's
    /// edits take effect at once.
    pub closed spec fn is_settled(&self) -> bool {
        settled(self.map)
    }

    /// How many edits this node's actor has made in the map's history (its
    /// counter in the map's clock).
    pub closed spec fn edits(&self) -> nat {
        counter_of(map_clock(self.map), self.id)
    }

    /// The store's map itself, as an opaque value (for `merged_services`).
    pub closed spec fn replica(&self) -> AbilitiesMap {
        self.map
    }

    /// An edit counter fits in a `u64`.
    pub proof fn lemma_edits_fit(&self)
        ensures
            self.edits() <= u64::MAX,
    {
    }

    /// The map's version clock: for each node, how many of its edits the map has seen.
    pub closed spec fn seen(&self) -> Map<u64, u64> {
        map_clock(self.map)
    }

    /// Whether the store's map is blank: it holds no ability and its clock has
    /// seen no edit.
    pub closed spec fn is_blank(&self) -> bool {
        &&& services(self.map).dom() == Set::<Seq<char>>::empty()
        &&& map_clock(self.map).dom() == Set::<u64>::empty()
    }

    /// A store for node `id` offering `urls`, whose map is blank and settled.
    pub fn new(id: NodeId, urls: Vec<UrlEntry>) -> (s: Self)
        ensures
            s.node_id() == id,
            s.own_urls() == entry_pairs(urls@),
            s.held().dom() == Set::<Seq<char>>::empty(),
            s.is_blank(),
            s.is_settled(),
            s.edits() == 0,
    {
        AbilitiesStore { id, urls, map: map_new() }
    }

    /// Adds `value` to the URLs under `key`, as an edit by this node. On a settled
    /// store the URL is then under the key. Where this node's edit counter is
    /// exhausted (`u64::MAX`) no edit can be made and the store is left as it is.
    pub fn insert(&mut self, key: Ability, value: URL)
        ensures
            final(self).node_id() == old(self).node_id(),
            final(self).own_urls() == old(self).own_urls(),
            old(self).edits() >= u64::MAX ==> *final(self) == *old(self),
            old(self).edits() < u64::MAX ==> final(self).edits() == old(self).edits() + 1,
            old(self).is_settled() ==> final(self).is_settled(),
            old(self).is_settled() && old(self).edits() < u64::MAX ==> final(self).held() == with_url(
                old(self).held(),
                key@,
                value@,
            ),
    {
        let read_ctx = map_read_ctx(&self.map);
        if vclock_get(&read_ctx.add_clock, self.id) == u64::MAX {
            return;
        }
        let add_ctx = derive_add_ctx(read_ctx, self.id);
        let ghost v = value@;
        let op = map_update(
            &self.map,
            key,
            add_ctx,
            (move |_set: &UrlSet, ctx: EditCtx| -> (r: UrlSetOp)
                ensures
                    single_add(r, ctx.dot) == Some(v),
                { set_add(value, ctx) }),
        );
        if let Some(op) = op {
            map_apply(&mut self.map, op);
        }
    }

    /// Removes `value` from the URLs under `key`, as far as this node has seen it,
    /// as an edit by this node. On a settled store the URL is then no longer under
    /// the key (which is present afterwards, possibly with no URL). Where this
    /// node's edit counter is exhausted the store is left as it is.
    pub fn remove(&mut self, key: Ability, value: URL)
        ensures
            final(self).node_id() == old(self).node_id(),
            final(self).own_urls() == old(self).own_urls(),
            old(self).edits() >= u64::MAX ==> *final(self) == *old(self),
            old(self).edits() < u64::MAX ==> final(self).edits() == old(self).edits() + 1,
            old(self).is_settled() ==> final(self).is_settled(),
            old(self).is_settled() && old(self).edits() < u64::MAX ==> final(self).held() == without_url(
                old(self).held(),
                key@,
                value@,
            ),
    {
        let read_ctx = map_get(&self.map, &key);
        if vclock_get(&read_ctx.add_clock, self.id) == u64::MAX {
            return;
        }
        let add_ctx = derive_add_ctx(read_ctx, self.id);
        let ghost v = value@;
        let op = map_update(
            &self.map,
            key,
            add_ctx,
            (move |set: &UrlSet, _ctx: EditCtx| -> (r: UrlSetOp)
                ensures
                    single_rm(r, orswot_clock(*set)) == Some(v),
                {
                    let rm_ctx = derive_rm_ctx(set_read_ctx(set));
                    set_rm(value, rm_ctx)
                }),
        );
        if let Some(op) = op {
            map_apply(&mut self.map, op);
        }
    }

    /// Adds every service the node offers to the map, one edit each (the counter
    /// stops at `u64::MAX`). On a settled store whose counter has room for them
    /// all, the map then holds exactly what it held with the node's entries added,
    /// so every one of them is in it.
    pub fn register(&mut self)
        ensures
            final(self).node_id() == old(self).node_id(),
            final(self).own_urls() == old(self).own_urls(),
            final(self).edits() == capped(old(self).edits() + old(self).own_urls().len()),
            old(self).is_settled() ==> final(self).is_settled(),
            old(self).is_settled() && old(self).edits() + old(self).own_urls().len() <= u64::MAX
                ==> final(self).held() == with_entries(old(self).held(), old(self).own_urls()),
            old(self).is_settled() && old(self).edits() + old(self).own_urls().len() <= u64::MAX
                ==> offers_all(final(self).own_urls(), final(self).held()),
    {
        let n = self.urls.len();
        let mut i: usize = 0;
        let ghost own = self.own_urls();
        proof {
            assert(own.take(0) =~= Seq::<(Seq<char>, Seq<char>)>::empty());
            assert(entry_pairs(self.urls@).len() == self.urls@.len());
        }
        while i < n
            invariant
                i <= n,
                n == self.urls@.len(),
                n == own.len(),
                own == old(self).own_urls(),
                self.id == old(self).id,
                self.own_urls() == own,
                old(self).edits() <= u64::MAX,
                self.edits() == capped(old(self).edits() + i as nat),
                old(self).is_settled() ==> self.is_settled(),
                old(self).is_settled() && old(self).edits() + i <= u64::MAX ==> self.held()
                    == with_entries(old(self).held(), own.take(i as int)),
            decreases n - i,
        {
            let ability = self.urls[i].ability.clone();
            let url = self.urls[i].url.clone();
            let ghost before = *self;
            proof {
                assert(own[i as int] == (url@, ability@));
            }
            self.insert(ability, url);
            proof {
                assert(entry_pairs(self.urls@).len() == self.urls@.len());
                if old(self).is_settled() && old(self).edits() + i + 1 <= u64::MAX {
                    assert(before.edits() < u64::MAX);
                    assert(own.take(i + 1).drop_last() =~= own.take(i as int));
                    assert(own.take(i + 1).last() == own[i as int]);
                }
            }
            i = i + 1;
        }
        proof {
            assert(own.take(n as int) =~= own);
            if old(self).is_settled() && old(self).edits() + n <= u64::MAX {
                lemma_with_entries_offers(old(self).held(), own);
            }
        }
    }

    /// Merges another replica's map into this one: the store then holds what the
    /// CRDT merge of the two maps holds (`merged_services`). Merging a settled map
    /// into a settled store leaves it settled, and into a blank settled store gives
    /// it exactly that map's abilities and URLs.
    pub fn merge(&mut self, map: AbilitiesMap)
        ensures
            final(self).held() == merged_services(old(self).replica(), map),
            old(self).is_settled() && old(self).is_blank() && settled(map) ==> final(self).held()
                == services(map),
            final(self).node_id() == old(self).node_id(),
            final(self).own_urls() == old(self).own_urls(),
            final(self).edits() == if old(self).edits() >= counter_of(map_clock(map), old(self).node_id()) {
                old(self).edits()
            } else {
                counter_of(map_clock(map), old(self).node_id())
            },
            old(self).is_settled() && settled(map) ==> final(self).is_settled(),
    {
        map_merge(&mut self.map, map);
    }

    /// The map as JSON text, for gossip; `None` where `serde_json` cannot write
    /// it (it writes no map whose pending removals are keyed by clocks). A settled
    /// store is always written, and a peer that decodes the text gets a map with
    /// the same abilities and URLs.
    pub fn ser(&self) -> (r: Option<String>)
        ensures
            self.is_settled() ==> r is Some,
            r matches Some(text) ==> decoded_services(vstd::utf8::encode_utf8(text@)) == Some(self.held())
                && decoded_settled(vstd::utf8::encode_utf8(text@)) == self.is_settled(),
    {
        map_to_json(&self.map)
    }

    /// A copy of the store's map, to hand to another store or to compare with.
    pub fn map_copy(&self) -> (r: AbilitiesMap)
        ensures
            services(r) == self.held(),
            settled(r) == self.is_settled(),
            map_clock(r) == self.seen(),
    {
        map_clone(&self.map)
    }

    /// Whether `map` holds every service this node offers.
    pub fn exist(&self, map: &AbilitiesMap) -> (r: bool)
        ensures
            r == offers_all(self.own_urls(), services(*map)),
            r == forall|i: int|
                0 <= i < self.own_urls().len() ==> #[trigger] under(services(*map), self.own_urls()[i].1).contains(
                    self.own_urls()[i].0,
                ),
    {
        proof {
            lemma_offers_all_is_membership(self.own_urls(), services(*map));
        }
        let n = self.urls.len();
        let mut i: usize = 0;
        while i < n
            invariant
                i <= n,
                n == self.urls@.len(),
                forall|j: int|
                    0 <= j < i ==> {
                        &&& services(*map).contains_key(#[trigger] self.own_urls()[j].1)
                        &&& services(*map)[self.own_urls()[j].1].contains(self.own_urls()[j].0)
                    },
            decreases n - i,
        {
            let entry = &self.urls[i];
            let found = map_get(map, &entry.ability);
            assert(self.own_urls()[i as int] == entry.pair());
            match found.val {
                None => {
                    assert(!services(*map).contains_key(self.own_urls()[i as int].1));
                    proof {
                        lemma_offers_all_is_membership(self.own_urls(), services(*map));
                        assert(!under(services(*map), self.own_urls()[i as int].1).contains(self.own_urls()[i as int].0));
                    }
                    return false;
                },
                Some(set) => {
                    if !set_contains(&set, &entry.url) {
                        assert(!services(*map)[self.own_urls()[i as int].1].contains(self.own_urls()[i as int].0));
                        proof {
                            lemma_offers_all_is_membership(self.own_urls(), services(*map));
                            assert(!under(services(*map), self.own_urls()[i as int].1).contains(
                                self.own_urls()[i as int].0,
                            ));
                        }
                        return false;
                    }
                },
            }
            i = i + 1;
        }
        true
    }

    /// The URLs under ability `a`, each once, if the ability is in the map.
    pub fn providers(&self, a: &Ability) -> (r: Option<Vec<URL>>)
        ensures
            r is Some <==> self.held().contains_key(a@),
            r matches Some(urls) ==> {
                &&& string_views(urls@).to_set() == self.held()[a@]
                &&& string_views(urls@).no_duplicates()
            },
    {
        let found = map_get(&self.map, a);
        match found.val {
            None => None,
            Some(set) => Some(set_read(&set)),
        }
    }

    /// A URL under ability `a`, picked at random to spread the load, or
    /// `NoSuchService` where the ability is not in the map. The ability's set
    /// must not be empty (there is nothing to pick from).
    pub fn get_url(&self, a: Ability) -> (r: Result<URL, Error>)
        requires
            self.held().contains_key(a@) ==> self.held()[a@] != Set::<Seq<char>>::empty(),
        ensures
            r is Err <==> !self.held().contains_key(a@),
            r matches Err(e) ==> e == Error::NoSuchService,
            r matches Ok(url) ==> self.held()[a@].contains(url@),
    {
        match self.providers(&a) {
            None => Err(Error::NoSuchService),
            Some(urls) => {
                let len = urls.len();
                proof {
                    if len == 0 {
                        assert(string_views(urls@) == Seq::<Seq<char>>::empty());
                        assert(string_views(urls@).to_set() == Set::<Seq<char>>::empty());
                    }
                }
                let mut rng = thread_rng();
                let idx = gen_index(&mut rng, len);
                let url = urls[idx].clone();
                proof {
                    assert(string_views(urls@)[idx as int] == url@);
                    assert(string_views(urls@).to_set().contains(url@));
                }
                Ok(url)
            },
        }
    }

    /// Every ability in the map with its URLs, for display: each ability once,
    /// in ascending order, each with the URLs of its set, each once.
    pub fn snapshot(&self) -> (r: Vec<(String, Vec<String>)>)
        ensures
            r@.map_values(|p: (String, Vec<String>)| p.0@).to_set() == self.held().dom(),
            r@.map_values(|p: (String, Vec<String>)| p.0@).no_duplicates(),
            ascending(r@.map_values(|p: (String, Vec<String>)| p.0@)),
            forall|i: int|
                0 <= i < r@.len() ==> {
                    &&& string_views((#[trigger] r@[i]).1@).to_set() == self.held()[r@[i].0@]
                    &&& string_views(r@[i].1@).no_duplicates()
                },
    {
        let keys = map_keys(&self.map);
        let mut result: Vec<(String, Vec<String>)> = Vec::new();
        let n = keys.len();
        let mut i: usize = 0;
        while i < n
            invariant
                i <= n,
                n == keys@.len(),
                string_views(keys@).to_set() == self.held().dom(),
                result@.map_values(|p: (String, Vec<String>)| p.0@) == string_views(keys@).take(i as int),
                forall|j: int|
                    0 <= j < result@.len() ==> {
                        &&& string_views((#[trigger] result@[j]).1@).to_set() == self.held()[result@[j].0@]
                        &&& string_views(result@[j].1@).no_duplicates()
                    },
            decreases n - i,
        {
            let key = keys[i].clone();
            proof {
                assert(string_views(keys@)[i as int] == key@);
                assert(string_views(keys@).to_set().contains(key@));
            }
            let urls = match self.providers(&key) {
                Some(urls) => urls,
                None => Vec::new(),
            };
            let ghost before = result@;
            result.push((key, urls));
            proof {
                assert(string_views(keys@).take(i + 1) == string_views(keys@).take(i as int).push(key@));
                assert(result@.map_values(|p: (String, Vec<String>)| p.0@)
                    == before.map_values(|p: (String, Vec<String>)| p.0@).push(key@));
            }
            i = i + 1;
        }
        proof {
            assert(string_views(keys@).take(n as int) == string_views(keys@));
            assert(result@.map_values(|p: (String, Vec<String>)| p.0@) == string_views(keys@));
        }
        result
    }

    /// Handles a map received from a peer: merges it, advertises this node's own
    /// services again (the merge may have dropped them), and answers whether the
    /// peer's map lacked any of them, in which case this node's map should be pushed.
    /// The node's counter becomes the larger of the two maps' counters for it, then
    /// advances by one per service (stopping at `u64::MAX`). When both maps are
    /// settled and the counter has room, the store then holds the merge of the two
    /// maps with this node's services added.
    pub fn apply_update(&mut self, received: AbilitiesMap) -> (push: bool)
        ensures
            push == !offers_all(old(self).own_urls(), services(received)),
            final(self).node_id() == old(self).node_id(),
            final(self).own_urls() == old(self).own_urls(),
            final(self).edits() == capped(
                joined(old(self).edits(), counter_of(map_clock(received), old(self).node_id()))
                    + old(self).own_urls().len(),
            ),
            old(self).is_settled() && settled(received) ==> final(self).is_settled(),
            old(self).is_settled() && settled(received) && joined(
                old(self).edits(),
                counter_of(map_clock(received), old(self).node_id()),
            ) + old(self).own_urls().len() <= u64::MAX ==> offers_all(
                final(self).own_urls(),
                final(self).held(),
            ),
            old(self).is_settled() && settled(received) && joined(
                old(self).edits(),
                counter_of(map_clock(received), old(self).node_id()),
            ) + old(self).own_urls().len() <= u64::MAX ==> final(self).held() == with_entries(
                merged_services(old(self).replica(), received),
                old(self).own_urls(),
            ),
            old(self).is_settled() && old(self).is_blank() && settled(received) && counter_of(
                map_clock(received),
                old(self).node_id(),
            ) + old(self).own_urls().len() <= u64::MAX ==> final(self).held() == with_entries(
                services(received),
                old(self).own_urls(),
            ),
    {
        let push = !self.exist(&received);
        self.merge(received);
        self.register();
        push
    }

    /// Handles a gossip update whose content is a map in JSON: `None` (and the
    /// store unchanged) where the content is no such map, else as `apply_update`
    /// with the decoded map, a map holding the abilities and URLs that the content
    /// describes.
    pub fn on_update(&mut self, content: &[u8]) -> (r: Option<bool>)
        ensures
            r is Some ==> exists|received: AbilitiesMap|
                {
                    &&& services(received) == decoded_services(content@)->0
                    &&& settled(received) == decoded_settled(content@)
                    &&& final(self).edits() == capped(
                        joined(old(self).edits(), counter_of(map_clock(received), old(self).node_id()))
                            + old(self).own_urls().len(),
                    )
                    &&& old(self).is_settled() && settled(received) && joined(
                        old(self).edits(),
                        counter_of(map_clock(received), old(self).node_id()),
                    ) + old(self).own_urls().len() <= u64::MAX ==> {
                        &&& final(self).held() == with_entries(
                            merged_services(old(self).replica(), received),
                            old(self).own_urls(),
                        )
                        &&& offers_all(final(self).own_urls(), final(self).held())
                    }
                    &&& old(self).is_settled() && old(self).is_blank() && settled(received) && counter_of(
                        map_clock(received),
                        old(self).node_id(),
                    ) + old(self).own_urls().len() <= u64::MAX ==> final(self).held() == with_entries(
                        services(received),
                        old(self).own_urls(),
                    )
                },
            r is None <==> decoded_services(content@) is None,
            r is None ==> *final(self) == *old(self),
            r matches Some(push) ==> push == !offers_all(old(self).own_urls(), decoded_services(content@)->0),
            final(self).node_id() == old(self).node_id(),
            final(self).own_urls() == old(self).own_urls(),
            r is Some && old(self).is_settled() && decoded_settled(content@) ==> final(self).is_settled(),
    {
        match map_from_json(content) {
            None => None,
            Some(received) => Some(self.apply_update(received)),
        }
    }
}

} // verus!
