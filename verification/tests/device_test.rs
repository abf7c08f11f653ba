use panorama::bus::device::{Ability, Component, Device, DeviceType as LanDeviceType};
use panorama::bus::peer::{answer, next_window, ping_target, record_reply, Ping, REPLY_WINDOW_MS};
use panorama::device::phone::Phone;
use panorama::device::sports_bracelet::SportsBracelet;
use panorama::device::treadmill::Treadmill;
use panorama::device::{Device as ServiceDevice, DeviceType};
use panorama::data::AllAbility;
use panorama::Error;

#[test]
fn device_type_from_str() {
    assert_eq!(DeviceType::from_str("Phone"), Ok(DeviceType::Phone));
    assert_eq!(DeviceType::from_str("Treadmill"), Ok(DeviceType::Treadmill));
    // "SportsBracelet" reads as a treadmill.
    assert_eq!(DeviceType::from_str("SportsBracelet"), Ok(DeviceType::Treadmill));
    assert_eq!(DeviceType::from_str("phone"), Err(Error::GetDeviceError));
    assert_eq!(DeviceType::from_str(""), Err(Error::GetDeviceError));
}

#[test]
fn battery_costs() {
    assert_eq!(Component::Recorder.get_battery_cost(), 2);
    assert_eq!(Component::Loudspeaker.get_battery_cost(), 3);
    assert_eq!(Component::Screen.get_battery_cost(), 4);
    assert_eq!(Component::Camera.get_battery_cost(), 5);
}

#[test]
fn lan_device_fields() {
    let ability = Ability::new(vec![Component::Camera, Component::Screen]);
    let mut device = Device::new(String::from("pixel"), 8, LanDeviceType::Phone, ability, String::from("0.0.0.0"));
    assert_eq!(device.name(), "pixel");
    assert_eq!(device.computing_power(), 8);
    assert_eq!(*device.device_type(), LanDeviceType::Phone);
    assert_eq!(device.ability().components(), &vec![Component::Camera, Component::Screen]);
    assert_eq!(device.battery(), 100);
    assert_eq!(device.ip(), "0.0.0.0");
    device.set_ip(String::from("10.0.0.2"));
    assert_eq!(device.ip(), "10.0.0.2");
    assert_eq!(device.name(), "pixel");
    let back = Device::from_parts(String::from("w"), 1, LanDeviceType::Watch, Ability::new(vec![]), 42, String::from("x"));
    assert_eq!(back.battery(), 42);
    assert_eq!(*back.device_type(), LanDeviceType::Watch);
}

#[test]
fn ping_is_answered_with_pong() {
    assert_eq!(answer(Ping::PING), Some(Ping::PONG));
    assert_eq!(answer(Ping::PONG), None);
    assert_eq!(answer(Ping::NONE), None);
}

#[test]
fn only_pongs_from_others_become_peers() {
    let me = String::from("10.0.0.2");
    let mut peers = vec![];
    record_reply(&mut peers, Ping::PONG, String::from("10.0.0.3"), &me);
    record_reply(&mut peers, Ping::PONG, String::from("10.0.0.2"), &me);
    record_reply(&mut peers, Ping::PING, String::from("10.0.0.4"), &me);
    record_reply(&mut peers, Ping::NONE, String::from("10.0.0.5"), &me);
    record_reply(&mut peers, Ping::PONG, String::from("10.0.0.6"), &me);
    assert_eq!(peers, vec![String::from("10.0.0.3"), String::from("10.0.0.6")]);
}

#[test]
fn pings_go_to_the_lan_broadcast_address() {
    assert_eq!(ping_target(String::from("192.168.1.5")).unwrap(), "192.168.1.255:8890");
}

#[test]
fn devices_generate_their_urls() {
    let phone = Phone { abilities: vec![AllAbility::TakePhoto] };
    let urls = phone.gen_urls("1.2.3.4");
    assert_eq!(urls.len(), 1);
    assert_eq!(urls[0].url, "http://1.2.3.4:8080/take_photo");
    let treadmill = Treadmill { abilities: vec![AllAbility::CollectRunningData] };
    assert_eq!(treadmill.gen_urls("1.2.3.4")[0].url, "http://1.2.3.4:8080/collect_running_data");
    let bracelet = SportsBracelet { abilities: vec![AllAbility::CollectBodyData] };
    assert_eq!(bracelet.gen_urls("1.2.3.4")[0].ability, "collect_body_data");
}

#[test]
fn battery_is_a_percentage() {
    let device = Device::new(String::from("pixel"), 8, LanDeviceType::Phone, Ability::new(vec![]), String::from("x"));
    let copy = device.clone();
    assert!(copy.battery() <= 100);
    assert_eq!(copy.name(), "pixel");
    let empty = Device::from_parts(String::from("w"), 1, LanDeviceType::PC, Ability::new(vec![]), 0, String::from("x"));
    assert_eq!(empty.battery(), 0);
    let full = Device::from_parts(String::from("w"), 1, LanDeviceType::PC, Ability::new(vec![]), 100, String::from("x"));
    assert_eq!(full.battery(), 100);
}

#[test]
fn reply_window_shrinks_then_closes() {
    assert_eq!(next_window(REPLY_WINDOW_MS, 500), Some(1500));
    assert_eq!(next_window(1500, 1499), Some(1));
    assert_eq!(next_window(1, 1), None);
    assert_eq!(next_window(1000, 5000), None);
    assert_eq!(next_window(0, 0), None);
}
