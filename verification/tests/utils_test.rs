use panorama::data::{AllAbility, UrlEntry};
use panorama::utils::{gen_urls, generate_node_id, get_broadcast_addr, node_id_from_digest, port_text};

#[test]
fn broadcast_addr_of_ipv4() {
    assert_eq!(get_broadcast_addr(String::from("192.168.1.5")).unwrap(), "192.168.1.255");
    assert_eq!(get_broadcast_addr(String::from("10.0.0.2")).unwrap(), "10.0.0.255");
}

#[test]
fn broadcast_addr_of_short_and_odd_texts() {
    assert_eq!(get_broadcast_addr(String::from("abc")).unwrap(), "abc.255");
    assert_eq!(get_broadcast_addr(String::from("a.b")).unwrap(), "a.b.255");
    assert_eq!(get_broadcast_addr(String::from("a..")).unwrap(), "a...255");
    assert_eq!(get_broadcast_addr(String::from("")).unwrap(), ".255");
    assert_eq!(get_broadcast_addr(String::from("1.2.3.4.5")).unwrap(), "1.2.3.255");
}

#[test]
fn port_text_is_decimal() {
    assert_eq!(port_text(8080), "8080");
    assert_eq!(port_text(0), "0");
    assert_eq!(port_text(7), "7");
    assert_eq!(port_text(65535), "65535");
    assert_eq!(port_text(100), "100");
}

#[test]
fn gen_urls_builds_one_entry_per_ability() {
    let urls = gen_urls(&vec![AllAbility::TakePhoto, AllAbility::CollectBodyData], "10.0.0.2");
    assert_eq!(urls.len(), 2);
    assert_eq!(urls[0].url, "http://10.0.0.2:8080/take_photo");
    assert_eq!(urls[0].ability, "take_photo");
    assert_eq!(urls[1].url, "http://10.0.0.2:8080/collect_body_data");
    assert_eq!(urls[1].ability, "collect_body_data");
    let none: Vec<UrlEntry> = gen_urls(&vec![], "10.0.0.2");
    assert!(none.is_empty());
}

#[test]
fn ability_names() {
    assert_eq!(AllAbility::TakePhoto.to_string(), "take_photo");
    assert_eq!(AllAbility::CollectRunningData.to_string(), "collect_running_data");
    assert_eq!(AllAbility::CollectBodyData.to_string(), "collect_body_data");
}

#[test]
fn node_id_reads_digest_prefix() {
    assert_eq!(node_id_from_digest("0123456789abcdef"), u64::from_be_bytes(*b"01234567"));
    assert_eq!(node_id_from_digest("00000000"), u64::from_be_bytes(*b"00000000"));
}

#[test]
fn node_id_of_known_addresses() {
    // First eight hex digits of SHA-256("127.0.0.1") are "12ca17b4".
    assert_eq!(generate_node_id(String::from("127.0.0.1")), u64::from_be_bytes(*b"12ca17b4"));
    assert_eq!(generate_node_id(String::from("10.0.0.2")), u64::from_be_bytes(*b"cb5f37b4"));
    assert_eq!(generate_node_id(String::from("10.0.0.2")), 7161345070534713908);
}

#[test]
fn node_id_bytes_are_lower_hex_digits() {
    for address in ["127.0.0.1", "10.0.0.2", "192.168.1.77", ""] {
        let id = generate_node_id(String::from(address));
        for b in id.to_be_bytes() {
            assert!(b.is_ascii_digit() || (b'a'..=b'f').contains(&b));
        }
    }
}
