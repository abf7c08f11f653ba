use panorama::data::crdt::decode_map;
use panorama::data::{AbilitiesStore, UrlEntry};
use panorama::Error;

fn entry(ability: &str, url: &str) -> UrlEntry {
    UrlEntry { url: url.to_string(), ability: ability.to_string() }
}

fn sorted(mut v: Vec<String>) -> Vec<String> {
    v.sort();
    v
}

#[test]
fn test_map() {
    let mut store1 = AbilitiesStore::new(1, vec![]);
    let mut store2 = AbilitiesStore::new(2, vec![]);
    store1.insert(String::from("sfd"), String::from("sdfsdf"));
    let payload = store1.ser().unwrap();
    assert_eq!(store2.on_update(payload.as_bytes()), Some(false));
    assert_eq!(store2.providers(&String::from("sfd")), Some(vec![String::from("sdfsdf")]));

    store1.remove(String::from("sfd"), String::from("sdfsdf"));
    let payload = store1.ser().unwrap();
    assert_eq!(store2.on_update(payload.as_bytes()), Some(false));
    assert_eq!(store2.providers(&String::from("sfd")), Some(vec![]));

    let mut store3 = AbilitiesStore::new(1, vec![]);
    let payload = store2.ser().unwrap();
    assert_eq!(store3.on_update(payload.as_bytes()), Some(false));
    store3.insert(String::from("sfd"), String::from("sdfsdf"));
    assert_eq!(store3.providers(&String::from("sfd")), Some(vec![String::from("sdfsdf")]));
}

#[test]
fn new_store_is_empty() {
    let store = AbilitiesStore::new(7, vec![entry("take_photo", "http://a:8080/take_photo")]);
    assert_eq!(store.providers(&String::from("take_photo")), None);
    assert!(store.snapshot().is_empty());
}

#[test]
fn insert_then_lookup() {
    let mut store = AbilitiesStore::new(1, vec![]);
    store.insert(String::from("take_photo"), String::from("http://a:8080/take_photo"));
    store.insert(String::from("take_photo"), String::from("http://b:8080/take_photo"));
    store.insert(String::from("collect_body_data"), String::from("http://c:8080/collect_body_data"));
    assert_eq!(
        sorted(store.providers(&String::from("take_photo")).unwrap()),
        vec![String::from("http://a:8080/take_photo"), String::from("http://b:8080/take_photo")]
    );
    let snapshot = store.snapshot();
    assert_eq!(snapshot.len(), 2);
    assert_eq!(snapshot[0].0, "collect_body_data");
    assert_eq!(snapshot[0].1, vec![String::from("http://c:8080/collect_body_data")]);
    assert_eq!(snapshot[1].0, "take_photo");
    assert_eq!(sorted(snapshot[1].1.clone()).len(), 2);
}

#[test]
fn remove_withdraws_url() {
    let mut store = AbilitiesStore::new(1, vec![]);
    store.insert(String::from("take_photo"), String::from("http://a:8080/take_photo"));
    store.insert(String::from("take_photo"), String::from("http://b:8080/take_photo"));
    store.remove(String::from("take_photo"), String::from("http://a:8080/take_photo"));
    assert_eq!(
        store.providers(&String::from("take_photo")),
        Some(vec![String::from("http://b:8080/take_photo")])
    );
}

#[test]
fn get_url_picks_an_advertised_url() {
    let mut store = AbilitiesStore::new(1, vec![]);
    store.insert(String::from("take_photo"), String::from("http://a:8080/take_photo"));
    store.insert(String::from("take_photo"), String::from("http://b:8080/take_photo"));
    for _ in 0..20 {
        let url = store.get_url(String::from("take_photo")).unwrap();
        assert!(url == "http://a:8080/take_photo" || url == "http://b:8080/take_photo");
    }
}

#[test]
fn get_url_unknown_ability_is_no_such_service() {
    let store = AbilitiesStore::new(1, vec![]);
    assert_eq!(store.get_url(String::from("take_photo")), Err(Error::NoSuchService));
}

#[test]
fn exist_checks_every_own_url() {
    let own = vec![
        entry("take_photo", "http://a:8080/take_photo"),
        entry("collect_body_data", "http://a:8080/collect_body_data"),
    ];
    let mut mine = AbilitiesStore::new(1, own.clone());
    let mut other = AbilitiesStore::new(2, vec![]);
    other.insert(String::from("take_photo"), String::from("http://a:8080/take_photo"));
    let partial = other.ser().unwrap();
    // The peer knows only one of this node's two services: push.
    assert_eq!(mine.on_update(partial.as_bytes()), Some(true));
    // After the update this node advertises both again, so its own map is complete.
    let full = mine.ser().unwrap();
    let mut third = AbilitiesStore::new(1, own);
    assert_eq!(third.on_update(full.as_bytes()), Some(false));
}

#[test]
fn register_advertises_own_urls() {
    let own = vec![entry("take_photo", "http://a:8080/take_photo")];
    let mut store = AbilitiesStore::new(1, own);
    store.register();
    assert_eq!(
        store.providers(&String::from("take_photo")),
        Some(vec![String::from("http://a:8080/take_photo")])
    );
}

#[test]
fn on_update_rejects_garbage() {
    let mut store = AbilitiesStore::new(1, vec![]);
    assert_eq!(store.on_update(b"not json"), None);
    assert_eq!(store.providers(&String::from("take_photo")), None);
}

#[test]
fn merged_updates_from_two_peers() {
    let mut a = AbilitiesStore::new(10, vec![]);
    let mut b = AbilitiesStore::new(20, vec![]);
    a.insert(String::from("take_photo"), String::from("http://a:8080/take_photo"));
    b.insert(String::from("take_photo"), String::from("http://b:8080/take_photo"));
    let mut c = AbilitiesStore::new(30, vec![]);
    c.on_update(a.ser().unwrap().as_bytes());
    c.on_update(b.ser().unwrap().as_bytes());
    assert_eq!(
        sorted(c.providers(&String::from("take_photo")).unwrap()),
        vec![String::from("http://a:8080/take_photo"), String::from("http://b:8080/take_photo")]
    );
}

#[test]
fn register_twice_changes_nothing() {
    let own = vec![
        entry("take_photo", "http://a:8080/take_photo"),
        entry("collect_body_data", "http://a:8080/collect_body_data"),
    ];
    let mut store = AbilitiesStore::new(1, own);
    store.insert(String::from("take_photo"), String::from("http://b:8080/take_photo"));
    store.register();
    let once = store.snapshot();
    store.register();
    let twice = store.snapshot();
    assert_eq!(once.len(), twice.len());
    for (a, b) in once.iter().zip(twice.iter()) {
        assert_eq!(a.0, b.0);
        assert_eq!(sorted(a.1.clone()), sorted(b.1.clone()));
    }
    assert_eq!(sorted(store.providers(&String::from("take_photo")).unwrap()).len(), 2);
}

#[test]
fn remove_from_absent_ability_leaves_it_empty() {
    let mut store = AbilitiesStore::new(1, vec![]);
    store.remove(String::from("take_photo"), String::from("http://a:8080/take_photo"));
    assert_eq!(store.providers(&String::from("take_photo")), Some(vec![]));
}

#[test]
fn fresh_store_takes_a_peers_map_and_adds_its_own() {
    let mut peer = AbilitiesStore::new(10, vec![entry("take_photo", "http://a:8080/take_photo")]);
    peer.register();
    let mut fresh = AbilitiesStore::new(20, vec![entry("collect_body_data", "http://b:8080/collect_body_data")]);
    let push = fresh.apply_update(peer.map_copy());
    assert!(push);
    assert_eq!(fresh.providers(&String::from("take_photo")), Some(vec![String::from("http://a:8080/take_photo")]));
    assert_eq!(
        fresh.providers(&String::from("collect_body_data")),
        Some(vec![String::from("http://b:8080/collect_body_data")])
    );
    assert_eq!(fresh.snapshot().len(), 2);
}

#[test]
fn merge_into_fresh_store_copies_the_map() {
    let mut peer = AbilitiesStore::new(10, vec![]);
    peer.insert(String::from("take_photo"), String::from("http://a:8080/take_photo"));
    peer.insert(String::from("collect_body_data"), String::from("http://a:8080/collect_body_data"));
    let mut fresh = AbilitiesStore::new(20, vec![]);
    fresh.merge(peer.map_copy());
    let mine = fresh.snapshot();
    let theirs = peer.snapshot();
    assert_eq!(mine, theirs);
}

#[test]
fn decode_map_reads_what_ser_writes() {
    let mut store = AbilitiesStore::new(3, vec![]);
    store.insert(String::from("take_photo"), String::from("http://a:8080/take_photo"));
    let text = store.ser().unwrap();
    let map = decode_map(text.as_bytes()).unwrap();
    let mut other = AbilitiesStore::new(4, vec![]);
    other.merge(map);
    assert_eq!(other.snapshot(), store.snapshot());
    assert!(decode_map(b"[1, 2]").is_none());
}

#[test]
fn snapshot_lists_abilities_in_ascending_order() {
    let mut store = AbilitiesStore::new(1, vec![]);
    for ability in ["take_photo", "collect_running_data", "collect_body_data", "Zoom"] {
        store.insert(String::from(ability), String::from("http://a:8080/x"));
    }
    let names: Vec<String> = store.snapshot().into_iter().map(|p| p.0).collect();
    assert_eq!(names, vec!["Zoom", "collect_body_data", "collect_running_data", "take_photo"]);
}

#[test]
fn inserting_twice_is_inserting_once() {
    let mut store = AbilitiesStore::new(1, vec![]);
    store.insert(String::from("take_photo"), String::from("http://a:8080/take_photo"));
    let once = store.snapshot();
    store.insert(String::from("take_photo"), String::from("http://a:8080/take_photo"));
    assert_eq!(store.snapshot(), once);
}

#[test]
fn remove_undoes_insert() {
    let mut store = AbilitiesStore::new(1, vec![]);
    store.insert(String::from("take_photo"), String::from("http://a:8080/take_photo"));
    let before = store.snapshot();
    store.insert(String::from("take_photo"), String::from("http://b:8080/take_photo"));
    store.remove(String::from("take_photo"), String::from("http://b:8080/take_photo"));
    assert_eq!(store.snapshot(), before);
}

#[test]
fn peer_map_does_not_erase_what_the_store_knew() {
    let mut mine = AbilitiesStore::new(1, vec![entry("take_photo", "http://a:8080/take_photo")]);
    mine.register();
    mine.insert(String::from("collect_body_data"), String::from("http://c:8080/collect_body_data"));
    let mut peer = AbilitiesStore::new(2, vec![entry("collect_running_data", "http://b:8080/collect_running_data")]);
    peer.register();
    let push = mine.apply_update(peer.map_copy());
    assert!(push);
    assert_eq!(
        mine.providers(&String::from("collect_body_data")),
        Some(vec![String::from("http://c:8080/collect_body_data")])
    );
    assert_eq!(mine.providers(&String::from("take_photo")), Some(vec![String::from("http://a:8080/take_photo")]));
    assert_eq!(
        mine.providers(&String::from("collect_running_data")),
        Some(vec![String::from("http://b:8080/collect_running_data")])
    );
}
