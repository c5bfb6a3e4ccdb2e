use vmctl::codec::encode_config;
use vmctl::codec::parse_config;
use vmctl::exception::Exception;
use vmctl::vm_config::Os;
use vmctl::vm_config::Share;
use vmctl::vm_config::VmConfig;

fn linux_sample() -> VmConfig {
    VmConfig {
        os: Os::Linux,
        cpu: 1,
        memory: 1024 * 1024 * 1024,
        mac_address: "52:54:00:ab:cd:ef".to_string(),
        sharing: Vec::new(),
        rosetta: Some(false),
        hardware_model: None,
        machine_identifier: None,
    }
}

fn macos_sample() -> VmConfig {
    VmConfig {
        os: Os::MacOs,
        cpu: 4,
        memory: 8 * 1024 * 1024 * 1024,
        mac_address: "52:54:00:00:11:22".to_string(),
        sharing: vec![
            Share { name: "projects".to_string(), path: "/Users/me/projects".to_string() },
            Share { name: "scratch".to_string(), path: "/tmp/scratch".to_string() },
        ],
        rosetta: None,
        hardware_model: Some("YnBsaXN0MDB=".to_string()),
        machine_identifier: Some("aWRlbnRpZmllcg==".to_string()),
    }
}

#[test]
fn round_trip_linux() {
    let c = linux_sample();
    let doc = encode_config(&c);
    let parsed = parse_config(doc.as_str()).unwrap();
    assert_eq!(parsed, c);
}

#[test]
fn round_trip_macos_with_sharing() {
    let c = macos_sample();
    let doc = encode_config(&c);
    let parsed = parse_config(doc.as_str()).unwrap();
    assert_eq!(parsed, c);
}

#[test]
fn round_trip_rosetta_on() {
    let mut c = linux_sample();
    c.rosetta = Some(true);
    let doc = encode_config(&c);
    let parsed = parse_config(doc.as_str()).unwrap();
    assert_eq!(parsed, c);
}

#[test]
fn round_trip_keeps_strings_with_separators() {
    let mut c = linux_sample();
    c.mac_address = "odd;mac\nwith=chars".to_string();
    let doc = encode_config(&c);
    let parsed = parse_config(doc.as_str()).unwrap();
    assert_eq!(parsed, c);
}

#[test]
fn parse_rejects_empty_document() {
    match parse_config("") {
        Err(Exception::SerializationError(_)) => {}
        other => panic!("expected a serialization error, got {:?}", other),
    }
}

#[test]
fn parse_rejects_bad_tag() {
    match parse_config("x1;2;3;a") {
        Err(Exception::SerializationError(_)) => {}
        other => panic!("expected a serialization error, got {:?}", other),
    }
}

#[test]
fn parse_rejects_truncated_document() {
    let doc = encode_config(&linux_sample());
    let cut = &doc[..doc.len() - 1];
    match parse_config(cut) {
        Err(Exception::SerializationError(_)) => {}
        other => panic!("expected a serialization error, got {:?}", other),
    }
}

#[test]
fn parse_rejects_trailing_garbage() {
    let mut doc = encode_config(&linux_sample());
    doc.push('z');
    match parse_config(doc.as_str()) {
        Err(Exception::SerializationError(_)) => {}
        other => panic!("expected a serialization error, got {:?}", other),
    }
}

#[test]
fn encoded_document_shape_is_stable() {
    let c = linux_sample();
    let doc = encode_config(&c);
    assert_eq!(doc, "l1;1073741824;17;52:54:00:ab:cd:ef0;sfnn");
}

#[test]
fn parse_rejects_mismatched_field_groups() {
    // structurally sound, but a linux tag with no rosetta field group
    match parse_config("l1;1073741824;0;0;nnn") {
        Err(Exception::SerializationError(_)) => {}
        other => panic!("expected a serialization error, got {:?}", other),
    }
}
