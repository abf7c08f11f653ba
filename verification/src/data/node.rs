//! A node of the registry: its identity, the device it runs as, and its store.
use vstd::prelude::*;

use crate::data::crdt::decoded_services;
use crate::data::store::{capped, offers_all, with_entries};
use crate::data::{AbilitiesStore, AllAbility, NodeId, UrlEntry, entry_pairs};
use crate::device::{Device, DeviceType};
use crate::device::phone::Phone;
use crate::device::sports_bracelet::SportsBracelet;
use crate::device::treadmill::Treadmill;
use crate::utils::{generate_node_id, lemma_service_url_format, node_id_of, service_entries, service_url};
use crate::data::ability_name;

verus! {

/// A node: its id, its address on the LAN, the kind of device it runs as and its
/// copy of the service map.
pub struct Node {
    pub id: NodeId,
    pub addr: String,
    pub device_type: DeviceType,
    pub store: AbilitiesStore,
}

/// Whether none of the (URL, ability) entries is in `services`, each ability
/// being present with the URL absent from its set.
pub open spec fn withdrawn_all(
    entries: Seq<(Seq<char>, Seq<char>)>,
    services: Map<Seq<char>, Set<Seq<char>>>,
) -> bool {
    forall|i: int|
        0 <= i < entries.len() ==> {
            &&& services.contains_key(#[trigger] entries[i].1)
            &&& !services[entries[i].1].contains(entries[i].0)
        }
}

/// The abilities a node offers when it runs as a device of type `t`.
pub open spec fn device_abilities(t: DeviceType) -> Seq<AllAbility> {
    match t {
        DeviceType::Phone => seq![AllAbility::TakePhoto],
        DeviceType::Treadmill => seq![AllAbility::CollectRunningData],
        DeviceType::SportsBracelet => seq![AllAbility::CollectBodyData],
    }
}

/// The services a node advertises depend on its device type alone: a phone
/// offers taking photos, a treadmill collecting running data and a sports
/// bracelet collecting body data, each one service at `http://<ip>:8080/<name>`.
pub proof fn lemma_device_services(t: DeviceType, ip: Seq<char>)
    ensures
        service_entries(device_abilities(t), ip) == match t {
            DeviceType::Phone => seq![("http://"@ + ip + ":8080/take_photo"@, "take_photo"@)],
            DeviceType::Treadmill => seq![
                ("http://"@ + ip + ":8080/collect_running_data"@, "collect_running_data"@),
            ],
            DeviceType::SportsBracelet => seq![
                ("http://"@ + ip + ":8080/collect_body_data"@, "collect_body_data"@),
            ],
        },
{
    let a = match t {
        DeviceType::Phone => AllAbility::TakePhoto,
        DeviceType::Treadmill => AllAbility::CollectRunningData,
        DeviceType::SportsBracelet => AllAbility::CollectBodyData,
    };
    lemma_service_url_format(ip, a);
    assert(device_abilities(t) == seq![a]);
    assert(service_entries(device_abilities(t), ip) =~= seq![(service_url(ip, a), ability_name(a))]);
}

/// The entries under which a device of type `t` at `ip` offers its abilities.
fn device_urls(t: DeviceType, ip: &str) -> (r: Vec<UrlEntry>)
    ensures
        entry_pairs(r@) == service_entries(device_abilities(t), ip@),
{
    match t {
        DeviceType::Phone => {
            let device = Phone { abilities: vec![AllAbility::TakePhoto] };
            assert(device.abilities@ == device_abilities(t));
            device.gen_urls(ip)
        },
        DeviceType::Treadmill => {
            let device = Treadmill { abilities: vec![AllAbility::CollectRunningData] };
            assert(device.abilities@ == device_abilities(t));
            device.gen_urls(ip)
        },
        DeviceType::SportsBracelet => {
            let device = SportsBracelet { abilities: vec![AllAbility::CollectBodyData] };
            assert(device.abilities@ == device_abilities(t));
            device.gen_urls(ip)
        },
    }
}

impl Node {
    /// The node at `self_ip` running as a device of type `device_type`: its id is
    /// derived from the address, it offers the device's abilities at that address,
    /// and its map is empty. The address must be short enough to hash.
    pub fn create(device_type: DeviceType, self_ip: String) -> (node: Node)
        requires
            vstd::utf8::encode_utf8(self_ip@).len() * 8 <= u64::MAX,
        ensures
            node.id == node_id_of(self_ip@),
            node.addr@ == self_ip@,
            node.device_type == device_type,
            node.store.node_id() == node.id,
            node.store.own_urls() == service_entries(device_abilities(device_type), self_ip@),
            node.store.own_urls() == match device_type {
                DeviceType::Phone => seq![("http://"@ + self_ip@ + ":8080/take_photo"@, "take_photo"@)],
                DeviceType::Treadmill => seq![
                    ("http://"@ + self_ip@ + ":8080/collect_running_data"@, "collect_running_data"@),
                ],
                DeviceType::SportsBracelet => seq![
                    ("http://"@ + self_ip@ + ":8080/collect_body_data"@, "collect_body_data"@),
                ],
            },
            node.store.held().dom() == Set::<Seq<char>>::empty(),
            node.store.is_blank(),
            node.store.is_settled(),
            node.store.edits() == 0,
    {
        let urls = device_urls(device_type, self_ip.as_str());
        proof {
            lemma_device_services(device_type, self_ip@);
        }
        let id = generate_node_id(self_ip.clone());
        Node { id, addr: self_ip, device_type, store: AbilitiesStore::new(id, urls) }
    }

    /// Advertises the node's services in its map, and gives the map as JSON for
    /// the gossip service to spread (`None` where it cannot be written; a settled
    /// store always is). Each service takes one edit of the node's counter, which
    /// stops at `u64::MAX`; on a settled store whose counter has room for them all,
    /// every service of the node is then in its map.
    pub fn register(&mut self) -> (payload: Option<String>)
        ensures
            final(self).id == old(self).id,
            final(self).addr == old(self).addr,
            final(self).device_type == old(self).device_type,
            final(self).store.node_id() == old(self).store.node_id(),
            final(self).store.own_urls() == old(self).store.own_urls(),
            old(self).store.is_settled() ==> final(self).store.is_settled(),
            final(self).store.edits() == capped(old(self).store.edits() + old(self).store.own_urls().len()),
            old(self).store.is_settled() && old(self).store.edits() + old(self).store.own_urls().len()
                <= u64::MAX ==> final(self).store.held() == with_entries(
                old(self).store.held(),
                old(self).store.own_urls(),
            ),
            old(self).store.is_settled() && old(self).store.edits() + old(self).store.own_urls().len()
                <= u64::MAX ==> offers_all(final(self).store.own_urls(), final(self).store.held()),
            old(self).store.is_settled() ==> payload is Some,
            payload matches Some(text) ==> decoded_services(vstd::utf8::encode_utf8(text@)) == Some(
                final(self).store.held(),
            ),
    {
        self.store.register();
        self.store.ser()
    }

    /// Withdraws the services of the node's device from its map, and gives the
    /// map as JSON for the gossip service to spread (`None` where it cannot be
    /// written; a settled store always is). Each URL takes one edit of the node's
    /// counter, which stops at `u64::MAX`; on a settled store whose counter has room
    /// for them all, none of the device's URLs is then under its ability.
    pub fn shutdown(&mut self) -> (payload: Option<String>)
        ensures
            final(self).id == old(self).id,
            final(self).addr == old(self).addr,
            final(self).device_type == old(self).device_type,
            final(self).store.node_id() == old(self).store.node_id(),
            final(self).store.own_urls() == old(self).store.own_urls(),
            old(self).store.is_settled() ==> final(self).store.is_settled(),
            final(self).store.edits() == capped(
                old(self).store.edits() + service_entries(
                    device_abilities(old(self).device_type),
                    old(self).addr@,
                ).len(),
            ),
            old(self).store.is_settled() && old(self).store.edits() + service_entries(
                device_abilities(old(self).device_type),
                old(self).addr@,
            ).len() <= u64::MAX ==> withdrawn_all(
                service_entries(device_abilities(old(self).device_type), old(self).addr@),
                final(self).store.held(),
            ),
            old(self).store.is_settled() ==> payload is Some,
            payload matches Some(text) ==> decoded_services(vstd::utf8::encode_utf8(text@)) == Some(
                final(self).store.held(),
            ),
    {
        let urls = device_urls(self.device_type, self.addr.as_str());
        let ghost entries = service_entries(device_abilities(self.device_type), self.addr@);
        let n = urls.len();
        let mut i: usize = 0;
        proof {
            assert(entry_pairs(urls@).len() == urls@.len());
            self.store.lemma_edits_fit();
        }
        while i < n
            invariant
                i <= n,
                n == urls@.len(),
                entry_pairs(urls@) == entries,
                self.id == old(self).id,
                self.addr == old(self).addr,
                self.device_type == old(self).device_type,
                self.store.node_id() == old(self).store.node_id(),
                self.store.own_urls() == old(self).store.own_urls(),
                old(self).store.edits() <= u64::MAX,
                self.store.edits() == capped(old(self).store.edits() + i as nat),
                old(self).store.is_settled() ==> self.store.is_settled(),
                old(self).store.is_settled() && old(self).store.edits() + i <= u64::MAX ==> forall|j: int|
                    0 <= j < i ==> {
                        &&& self.store.held().contains_key(#[trigger] entries[j].1)
                        &&& !self.store.held()[entries[j].1].contains(entries[j].0)
                    },
            decreases n - i,
        {
            let ability = urls[i].ability.clone();
            let url = urls[i].url.clone();
            let ghost before = self.store;
            proof {
                assert(entries[i as int] == urls@[i as int].pair());
            }
            self.store.remove(ability, url);
            proof {
                if old(self).store.is_settled() && old(self).store.edits() + i + 1 <= u64::MAX {
                    assert(before.edits() < u64::MAX);
                    assert forall|j: int| 0 <= j < i + 1 implies {
                        &&& self.store.held().contains_key(#[trigger] entries[j].1)
                        &&& !self.store.held()[entries[j].1].contains(entries[j].0)
                    } by {
                        if j < i {
                            assert(before.held().contains_key(entries[j].1));
                        }
                    }
                }
            }
            i = i + 1;
        }
        self.store.ser()
    }
}

} // verus!
