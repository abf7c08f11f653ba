use panorama::data::Node;
use panorama::device::DeviceType;
use panorama::schedule::{parse_command, split_words, Command};

#[test]
fn create_node_for_phone() {
    let node = Node::create(DeviceType::Phone, String::from("10.0.0.2"));
    assert_eq!(node.id, 7161345070534713908);
    assert_eq!(node.addr, "10.0.0.2");
    assert_eq!(node.store.providers(&String::from("take_photo")), None);
}

#[test]
fn register_then_shutdown() {
    let mut node = Node::create(DeviceType::SportsBracelet, String::from("10.0.0.2"));
    assert!(node.register().is_some());
    assert_eq!(
        node.store.providers(&String::from("collect_body_data")),
        Some(vec![String::from("http://10.0.0.2:8080/collect_body_data")])
    );
    assert_eq!(
        node.store.get_url(String::from("collect_body_data")).unwrap(),
        "http://10.0.0.2:8080/collect_body_data"
    );
    assert!(node.shutdown().is_some());
    assert_eq!(node.store.providers(&String::from("collect_body_data")), Some(vec![]));
}

#[test]
fn peers_learn_each_other() {
    let mut phone = Node::create(DeviceType::Phone, String::from("10.0.0.2"));
    let mut treadmill = Node::create(DeviceType::Treadmill, String::from("10.0.0.3"));
    let from_phone = phone.register().unwrap();
    let from_treadmill = treadmill.register().unwrap();
    // The treadmill's map lacks the phone's service: the phone pushes its own map.
    assert_eq!(phone.store.on_update(from_treadmill.as_bytes()), Some(true));
    assert_eq!(treadmill.store.on_update(from_phone.as_bytes()), Some(true));
    assert_eq!(
        treadmill.store.get_url(String::from("take_photo")).unwrap(),
        "http://10.0.0.2:8080/take_photo"
    );
    assert_eq!(
        phone.store.get_url(String::from("collect_running_data")).unwrap(),
        "http://10.0.0.3:8080/collect_running_data"
    );
}

#[test]
fn words_split_on_white_space() {
    assert_eq!(split_words("  run  take_photo\tcollect_body_data \n"), vec!["run", "take_photo", "collect_body_data"]);
    assert!(split_words("   ").is_empty());
    assert_eq!(split_words("a\u{3000}b"), vec!["a", "b"]);
}

#[test]
fn commands() {
    assert!(matches!(parse_command("show\n"), Command::Show));
    assert!(matches!(parse_command(""), Command::Empty));
    assert!(matches!(parse_command("   \n"), Command::Empty));
    assert!(matches!(parse_command("quit"), Command::Quit));
    assert!(matches!(parse_command("exit"), Command::Quit));
    assert!(matches!(parse_command("q"), Command::Quit));
    match parse_command("run take_photo collect_body_data") {
        Command::Run(names) => assert_eq!(names, vec!["take_photo", "collect_body_data"]),
        other => panic!("unexpected {:?}", other),
    }
    match parse_command("cd /tmp") {
        Command::Cd(dir) => assert_eq!(dir, "/tmp"),
        other => panic!("unexpected {:?}", other),
    }
    match parse_command("cd") {
        Command::Cd(dir) => assert_eq!(dir, "/"),
        other => panic!("unexpected {:?}", other),
    }
    match parse_command("ls -l /") {
        Command::Exec(program, args) => {
            assert_eq!(program, "ls");
            assert_eq!(args, vec!["-l", "/"]);
        },
        other => panic!("unexpected {:?}", other),
    }
}
