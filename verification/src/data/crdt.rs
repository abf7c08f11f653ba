//! The replicated ability map, held in the crdts crate's `Map` of `Orswot`s,
//! and the trusted items through which the library reads and edits it.
//!
//! The contracts speak of a map through names: what it holds (`services`), its
//! version clock (`map_clock`), the clocks of its sets (`set_clocks`), and
//! whether it is `settled`, and what a merge of two maps holds
//! (`merged_services`). Edits are described for settled maps only, where an edit
//! with a fresh dot takes effect at once.
use vstd::prelude::*;

verus! {

/// The set of URLs under one ability, as an observed-remove CRDT set.
pub type UrlSet = crdts::Orswot<String, u64>;

/// The context of an edit by a node.
pub type EditCtx = crdts::ctx::AddCtx<u64>;

/// An edit of one URL set.
pub type UrlSetOp = crdts::orswot::Op<String, u64>;

/// Which nodes offer an ability: ability name -> set of service URLs, as a CRDT map
/// whose actors are node ids.
#[verifier::external_body]
pub struct AbilitiesMap {
    inner: crdts::Map<String, UrlSet, u64>,
}

/// An edit of the set under `key`, witnessed by `dot`: the map's `Op::Up`.
pub struct AbilitiesMapOp {
    pub dot: crdts::Dot<u64>,
    pub key: String,
    pub op: UrlSetOp,
}

#[verifier::external_type_specification]
#[verifier::external_body]
#[verifier::reject_recursive_types(M)]
#[verifier::reject_recursive_types(A)]
pub struct ExOrswot<M: core::hash::Hash + Eq, A: Ord + core::hash::Hash>(crdts::Orswot<M, A>);

#[verifier::external_type_specification]
#[verifier::reject_recursive_types(M)]
#[verifier::reject_recursive_types(A)]
pub struct ExOrswotOp<M, A: Ord>(crdts::orswot::Op<M, A>);

#[verifier::external_type_specification]
#[verifier::reject_recursive_types(A)]
pub struct ExDot<A>(crdts::Dot<A>);

#[verifier::external_type_specification]
#[verifier::external_body]
#[verifier::reject_recursive_types(A)]
pub struct ExVClock<A: Ord>(crdts::VClock<A>);

#[verifier::external_type_specification]
#[verifier::reject_recursive_types(V)]
#[verifier::reject_recursive_types(A)]
pub struct ExReadCtx<V, A: Ord>(crdts::ctx::ReadCtx<V, A>);

#[verifier::external_type_specification]
#[verifier::reject_recursive_types(A)]
pub struct ExAddCtx<A: Ord>(crdts::ctx::AddCtx<A>);

#[verifier::external_type_specification]
#[verifier::reject_recursive_types(A)]
pub struct ExRmCtx<A: Ord>(crdts::ctx::RmCtx<A>);

/// What an ability map holds: each ability present in the map with the URLs in its set.
pub uninterp spec fn services(m: AbilitiesMap) -> Map<Seq<char>, Set<Seq<char>>>;

/// The dots of a map's own version clock: actor -> counter.
pub uninterp spec fn map_clock(m: AbilitiesMap) -> Map<u64, u64>;

/// The dots of the clock of the set under each ability of a map.
pub uninterp spec fn set_clocks(m: AbilitiesMap) -> Map<Seq<char>, Map<u64, u64>>;

/// Whether a map is settled: it holds no deferred removal (neither the map nor
/// any of its sets), every clock in one of its sets (the set's own and each
/// member's) is covered by the map's clock and, for members, by their set's
/// clock, no clock holds a zero counter, and the clock of every entry and of
/// every member is non-empty. Maps built by this library's edits and merges of
/// settled maps are settled.
pub uninterp spec fn settled(m: AbilitiesMap) -> bool;

/// The URLs an observed-remove set currently holds.
pub uninterp spec fn members(s: UrlSet) -> Set<Seq<char>>;

/// The dots of an observed-remove set's own clock.
pub uninterp spec fn orswot_clock(s: UrlSet) -> Map<u64, u64>;

/// The dots of a version clock: actor -> counter.
pub uninterp spec fn vclock_dots(c: crdts::VClock<u64>) -> Map<u64, u64>;

/// The abilities and URLs of the map that `crdts::CvRDT::merge` makes of map `a`
/// with map `b` merged into it (a function of the two maps alone).
pub uninterp spec fn merged_services(a: AbilitiesMap, b: AbilitiesMap) -> Map<Seq<char>, Set<Seq<char>>>;

/// The abilities and URLs of the map that `serde_json` reads from `bytes`, or `None`
/// where the bytes do not hold such a map.
pub uninterp spec fn decoded_services(bytes: Seq<u8>) -> Option<Map<Seq<char>, Set<Seq<char>>>>;

/// Whether the map that `serde_json` reads from `bytes` is settled.
pub uninterp spec fn decoded_settled(bytes: Seq<u8>) -> bool;

/// The counter of `actor` in a clock; an actor without a dot counts 0.
pub open spec fn counter_of(dots: Map<u64, u64>, actor: u64) -> nat {
    if dots.contains_key(actor) {
        dots[actor] as nat
    } else {
        0
    }
}

/// The URLs under `key`; none where the key is absent.
pub open spec fn under(s: Map<Seq<char>, Set<Seq<char>>>, key: Seq<char>) -> Set<Seq<char>> {
    if s.contains_key(key) {
        s[key]
    } else {
        Set::<Seq<char>>::empty()
    }
}

/// The clock of the set under `key` in `m`; empty where the key is absent.
pub open spec fn clock_under(m: AbilitiesMap, key: Seq<char>) -> Map<u64, u64> {
    if services(m).contains_key(key) {
        set_clocks(m)[key]
    } else {
        Map::<u64, u64>::empty()
    }
}

/// The member an edit adds, where it is an add of exactly one member under `dot`.
pub open spec fn single_add(op: UrlSetOp, dot: crdts::Dot<u64>) -> Option<Seq<char>> {
    match op {
        crdts::orswot::Op::Add { dot: d, members } => if d == dot && members@.len() == 1 {
            Some(members@[0]@)
        } else {
            None
        },
        _ => None,
    }
}

/// The member an edit removes, where it is a removal of exactly one member
/// witnessed by a clock with dots `clock`.
pub open spec fn single_rm(op: UrlSetOp, clock: Map<u64, u64>) -> Option<Seq<char>> {
    match op {
        crdts::orswot::Op::Rm { clock: c, members } => if vclock_dots(c) == clock && members@.len() == 1 {
            Some(members@[0]@)
        } else {
            None
        },
        _ => None,
    }
}

/// Whether string `a` comes before string `b` in the order of `String`s:
/// lexicographic by their UTF-8 bytes, which is lexicographic by characters.
pub open spec fn str_before(a: Seq<char>, b: Seq<char>) -> bool
    decreases a.len(),
{
    if a.len() == 0 {
        b.len() > 0
    } else if b.len() == 0 {
        false
    } else if a[0] != b[0] {
        (a[0] as u32) < (b[0] as u32)
    } else {
        str_before(a.drop_first(), b.drop_first())
    }
}

/// Whether the strings come in ascending order.
pub open spec fn ascending(v: Seq<Seq<char>>) -> bool {
    forall|i: int, j: int| 0 <= i < j < v.len() ==> str_before(#[trigger] v[i], #[trigger] v[j])
}

/// The views of a sequence of strings.
pub open spec fn string_views(v: Seq<String>) -> Seq<Seq<char>> {
    v.map_values(|s: String| s@)
}

/// `crdts::Map::new`: the new map holds no ability, its clock is empty, and it is settled.
#[verifier::external_body]
pub(crate) fn map_new() -> (m: AbilitiesMap)
    ensures
        services(m).dom() == Set::<Seq<char>>::empty(),
        map_clock(m).dom() == Set::<u64>::empty(),
        settled(m),
{
    AbilitiesMap { inner: crdts::Map::new() }
}

/// `Clone::clone` of a `crdts::Map`: a deep copy, with the same contents, clocks
/// and settledness.
#[verifier::external_body]
pub(crate) fn map_clone(m: &AbilitiesMap) -> (r: AbilitiesMap)
    ensures
        services(r) == services(*m),
        map_clock(r) == map_clock(*m),
        set_clocks(r) == set_clocks(*m),
        settled(r) == settled(*m),
{
    AbilitiesMap { inner: m.inner.clone() }
}

/// `crdts::Map::get`: a read context whose value is (a copy of) the set stored
/// under `key`, if the key is present, and whose add clock is the map's clock.
#[verifier::external_body]
pub(crate) fn map_get(m: &AbilitiesMap, key: &String) -> (r: crdts::ctx::ReadCtx<Option<UrlSet>, u64>)
    ensures
        r.val is Some <==> services(*m).contains_key(key@),
        r.val matches Some(s) ==> members(s) == services(*m)[key@] && orswot_clock(s) == set_clocks(*m)[key@],
        vclock_dots(r.add_clock) == map_clock(*m),
{
    m.inner.get(key)
}

/// `crdts::Map::keys`: the abilities present in the map, each once, in the
/// order of the map's `BTreeMap` of entries, which is ascending.
#[verifier::external_body]
pub(crate) fn map_keys(m: &AbilitiesMap) -> (r: Vec<String>)
    ensures
        string_views(r@).to_set() == services(*m).dom(),
        string_views(r@).no_duplicates(),
        ascending(string_views(r@)),
{
    m.inner.keys().map(|k| k.val.clone()).collect()
}

/// `crdts::Map::read_ctx`: the map's read context, whose add clock is the map's clock.
#[verifier::external_body]
pub(crate) fn map_read_ctx(m: &AbilitiesMap) -> (r: crdts::ctx::ReadCtx<(), u64>)
    ensures
        vclock_dots(r.add_clock) == map_clock(*m),
{
    m.inner.read_ctx()
}

/// `crdts::VClock::get`: the counter of `actor` (0 where it has no dot).
#[verifier::external_body]
pub(crate) fn vclock_get(c: &crdts::VClock<u64>, actor: u64) -> (r: u64)
    ensures
        r == counter_of(vclock_dots(*c), actor),
{
    c.get(&actor)
}

/// `crdts::ctx::ReadCtx::derive_add_ctx`: the context for an edit by `actor`, whose
/// dot is the actor's next counter in the read's add clock. Incrementing a counter
/// at `u64::MAX` overflows, which is excluded.
#[verifier::external_body]
pub(crate) fn derive_add_ctx<V>(ctx: crdts::ctx::ReadCtx<V, u64>, actor: u64) -> (r: crdts::ctx::AddCtx<u64>)
    requires
        counter_of(vclock_dots(ctx.add_clock), actor) < u64::MAX,
    ensures
        r.dot.actor == actor,
        r.dot.counter == counter_of(vclock_dots(ctx.add_clock), actor) + 1,
{
    ctx.derive_add_ctx(actor)
}

/// `crdts::Orswot::new`: a set with no member and an empty clock.
#[verifier::external_body]
pub(crate) fn set_new() -> (r: UrlSet)
    ensures
        members(r) == Set::<Seq<char>>::empty(),
        orswot_clock(r).dom() == Set::<u64>::empty(),
{
    crdts::Orswot::new()
}

/// `crdts::Orswot::contains`: whether `member` is in the set.
#[verifier::external_body]
pub(crate) fn set_contains(s: &UrlSet, member: &String) -> (r: bool)
    ensures
        r == members(*s).contains(member@),
{
    s.contains(member).val
}

/// `crdts::Orswot::read`: the members of the set, each once, in the order in
/// which its hash table yields them.
#[verifier::external_body]
pub(crate) fn set_read(s: &UrlSet) -> (r: Vec<String>)
    ensures
        string_views(r@).to_set() == members(*s),
        string_views(r@).no_duplicates(),
{
    s.read().val.into_iter().collect()
}

/// `crdts::Orswot::read_ctx`: the set's read context, whose remove clock is the
/// set's clock.
#[verifier::external_body]
pub(crate) fn set_read_ctx(s: &UrlSet) -> (r: crdts::ctx::ReadCtx<(), u64>)
    ensures
        vclock_dots(r.rm_clock) == orswot_clock(*s),
{
    s.read_ctx()
}

/// The context for a removal witnessed by the read's remove clock: all that
/// `crdts::ctx::ReadCtx::derive_rm_ctx` does.
pub(crate) fn derive_rm_ctx<V>(ctx: crdts::ctx::ReadCtx<V, u64>) -> (r: crdts::ctx::RmCtx<u64>)
    ensures
        r.clock == ctx.rm_clock,
{
    crdts::ctx::RmCtx { clock: ctx.rm_clock }
}

/// The operation that adds `member` under the context's dot: all that
/// `crdts::Orswot::add` does.
pub(crate) fn set_add(member: String, ctx: crdts::ctx::AddCtx<u64>) -> (r: UrlSetOp)
    ensures
        single_add(r, ctx.dot) == Some(member@),
{
    crdts::orswot::Op::Add { dot: ctx.dot, members: vec![member] }
}

/// The operation that removes `member` as far as the context's clock has seen
/// it: all that `crdts::Orswot::rm` does.
pub(crate) fn set_rm(member: String, ctx: crdts::ctx::RmCtx<u64>) -> (r: UrlSetOp)
    ensures
        single_rm(r, vclock_dots(ctx.clock)) == Some(member@),
{
    crdts::orswot::Op::Rm { clock: ctx.clock, members: vec![member] }
}

/// `crdts::Map::update`: the edit that `f` builds for the set under `key`,
/// witnessed by the context's dot; `f` gets the set under `key`, or an empty set
/// (`Orswot::default`) where the key is absent. The map's `Op::Up` comes back as
/// `Some` (`update` builds no other variant).
#[verifier::external_body]
pub(crate) fn map_update<F: FnOnce(&UrlSet, crdts::ctx::AddCtx<u64>) -> UrlSetOp>(
    m: &AbilitiesMap,
    key: String,
    ctx: crdts::ctx::AddCtx<u64>,
    f: F,
) -> (r: Option<AbilitiesMapOp>)
    requires
        forall|s: &UrlSet, c: crdts::ctx::AddCtx<u64>| f.requires((s, c)),
    ensures
        r is Some,
        r matches Some(op) ==> {
            &&& op.dot == ctx.dot
            &&& op.key == key
            &&& exists|cur: UrlSet|
                {
                    &&& members(cur) == under(services(*m), key@)
                    &&& orswot_clock(cur) == clock_under(*m, key@)
                    &&& f.ensures((&cur, ctx), op.op)
                }
        },
{
    match m.inner.update(key, ctx, f) {
        crdts::map::Op::Up { dot, key, op } => Some(AbilitiesMapOp { dot, key, op }),
        crdts::map::Op::Rm { .. } => None,
    }
}

/// `crdts::CmRDT::apply` of an `Op::Up` to a map. An edit whose dot the map's
/// clock has seen changes nothing. A fresh edit advances the clock to its dot; on
/// a settled map, an add (under the same dot) or a removal (witnessed by the
/// clock of the set under the key) of one member takes effect at once, creating
/// the key where it is absent, and leaves the map settled. Nothing is claimed of
/// other edits, nor of maps that are not settled.
#[verifier::external_body]
pub(crate) fn map_apply(m: &mut AbilitiesMap, op: AbilitiesMapOp)
    ensures
        op.dot.counter <= counter_of(map_clock(*old(m)), op.dot.actor) ==> *final(m) == *old(m),
        op.dot.counter > counter_of(map_clock(*old(m)), op.dot.actor) ==> forall|a: u64|
            #[trigger] counter_of(map_clock(*final(m)), a) == if a == op.dot.actor {
                op.dot.counter as nat
            } else {
                counter_of(map_clock(*old(m)), a)
            },
        single_add(op.op, op.dot) matches Some(v) ==> (op.dot.counter > counter_of(
            map_clock(*old(m)),
            op.dot.actor,
        ) && settled(*old(m)) ==> settled(*final(m)) && services(*final(m)) == services(
            *old(m),
        ).insert(op.key@, under(services(*old(m)), op.key@).insert(v))),
        single_rm(op.op, clock_under(*old(m), op.key@)) matches Some(v) ==> (op.dot.counter
            > counter_of(map_clock(*old(m)), op.dot.actor) && settled(*old(m)) ==> settled(*final(m))
            && services(*final(m)) == services(*old(m)).insert(
            op.key@,
            under(services(*old(m)), op.key@).remove(v),
        )),
{
    crdts::CmRDT::apply(&mut m.inner, crdts::map::Op::Up { dot: op.dot, key: op.key, op: op.op })
}

/// `crdts::CvRDT::merge` of two maps. The merged contents are named
/// (`merged_services`); the clock becomes the two clocks' join, and merging two
/// settled maps gives a settled map. Merging a settled map into an empty one
/// (no entry, an empty clock, no deferred removal) gives the other map's
/// abilities, URLs and set clocks: each of its entries has a non-empty clock that
/// the empty clock does not cover, so it is taken, and resetting it by the empty
/// clock drops nothing.
#[verifier::external_body]
pub(crate) fn map_merge(m: &mut AbilitiesMap, other: AbilitiesMap)
    ensures
        forall|a: u64|
            #[trigger] counter_of(map_clock(*final(m)), a) == if counter_of(map_clock(*old(m)), a)
                >= counter_of(map_clock(other), a) {
                counter_of(map_clock(*old(m)), a)
            } else {
                counter_of(map_clock(other), a)
            },
        services(*final(m)) == merged_services(*old(m), other),
        settled(*old(m)) && settled(other) ==> settled(*final(m)),
        settled(*old(m)) && services(*old(m)).dom() == Set::<Seq<char>>::empty() && map_clock(
            *old(m),
        ).dom() == Set::<u64>::empty() && settled(other) ==> services(*final(m)) == services(other)
            && set_clocks(*final(m)) == set_clocks(other),
{
    crdts::CvRDT::merge(&mut m.inner, other.inner)
}

/// `serde_json::to_string` of a map; `None` where it reports an error. It
/// reports one only for a map that holds a non-empty table keyed by something
/// other than strings and integers: here the tables of deferred removals, keyed
/// by clocks. A settled map holds no deferred removal, so it is always written.
/// Whether a map that is not settled is written (it is, unless a removal is
/// pending) is left unsaid: no name separates the two. The text follows the
/// order of the map's hash tables, which differs between processes, so only this
/// is claimed of it: `serde_json` reads it back as a map with the same abilities
/// and URLs and the same settledness (both directions are derived from the same
/// struct definitions).
#[verifier::external_body]
pub(crate) fn map_to_json(m: &AbilitiesMap) -> (r: Option<String>)
    ensures
        settled(*m) ==> r is Some,
        r matches Some(text) ==> decoded_services(vstd::utf8::encode_utf8(text@)) == Some(services(*m))
            && decoded_settled(vstd::utf8::encode_utf8(text@)) == settled(*m),
{
    serde_json::to_string(&m.inner).ok()
}

/// A map read from its JSON text, `None` where the bytes hold no map: the
/// decoder for maps that peers send.
pub fn decode_map(bytes: &[u8]) -> (r: Option<AbilitiesMap>)
    ensures
        r is Some <==> decoded_services(bytes@) is Some,
        r matches Some(m) ==> decoded_services(bytes@) == Some(services(m)) && settled(m) == decoded_settled(
            bytes@,
        ),
{
    map_from_json(bytes)
}

/// `serde_json::from_slice` into a map, `None` where it reports an error: it succeeds
/// exactly when `bytes` hold a map, which then holds the abilities and URLs that
/// the bytes describe.
#[verifier::external_body]
pub(crate) fn map_from_json(bytes: &[u8]) -> (r: Option<AbilitiesMap>)
    ensures
        r is Some <==> decoded_services(bytes@) is Some,
        r matches Some(m) ==> decoded_services(bytes@) == Some(services(m)) && settled(m) == decoded_settled(
            bytes@,
        ),
{
    serde_json::from_slice(bytes).ok().map(|inner| AbilitiesMap { inner })
}

} // verus!
