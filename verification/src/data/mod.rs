//! Data held by a node: the abilities it offers and the replicated service map.
use vstd::prelude::*;
use vstd::string::*;

pub mod crdt;
pub mod node;
pub mod store;

pub use node::Node;
pub use store::AbilitiesStore;

verus! {

/// The name of an ability, such as `take_photo`.
pub type Ability = String;

/// The URL under which a node serves an ability.
pub type URL = String;

/// A node's identifier; it is also the node's actor in the replicated map.
pub type NodeId = u64;

/// The abilities that a device can offer.
#[derive(Debug, Clone, Copy, PartialEq, Eq, Structural)]
pub enum AllAbility {
    TakePhoto,
    CollectRunningData,
    CollectBodyData,
}

/// The name under which an ability is advertised and served.
pub open spec fn ability_name(a: AllAbility) -> Seq<char> {
    match a {
        AllAbility::TakePhoto => "take_photo"@,
        AllAbility::CollectRunningData => "collect_running_data"@,
        AllAbility::CollectBodyData => "collect_body_data"@,
    }
}

impl AllAbility {
    /// The ability's name: `take_photo`, `collect_running_data` or `collect_body_data`.
    pub fn to_string(&self) -> (r: String)
        ensures
            r@ == ability_name(*self),
    {
        match self {
            AllAbility::TakePhoto => String::from_str("take_photo"),
            AllAbility::CollectRunningData => String::from_str("collect_running_data"),
            AllAbility::CollectBodyData => String::from_str("collect_body_data"),
        }
    }
}

/// One service a node offers: the URL that serves an ability.
#[derive(Debug, Clone)]
pub struct UrlEntry {
    pub url: String,
    pub ability: String,
}

impl UrlEntry {
    /// The entry as a pair of texts: URL, then ability name.
    pub open spec fn pair(self) -> (Seq<char>, Seq<char>) {
        (self.url@, self.ability@)
    }
}

/// The (URL, ability) pairs of a sequence of entries.
pub open spec fn entry_pairs(v: Seq<UrlEntry>) -> Seq<(Seq<char>, Seq<char>)> {
    v.map_values(|e: UrlEntry| e.pair())
}

} // verus!
