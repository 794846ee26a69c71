use mac2win::audio::{describe_device, update_audio_settings};
use mac2win::discovery::{
    advert_properties, local_peer, os_from_label, os_label, peer_from_service,
    service_host_name, service_instance_name, PeerTable,
};
use mac2win::protocol::{AudioDeviceRole, AudioSettings, OperatingSystem};

#[test]
fn audio_toggle_reported_only_on_change() {
    let mut current = AudioSettings::default();
    let mut on = AudioSettings::default();
    on.enabled = true;
    on.bitrate_kbps = 256;
    assert_eq!(update_audio_settings(&mut current, on.clone()), Some(true));
    assert_eq!(current.bitrate_kbps, 256);
    assert_eq!(update_audio_settings(&mut current, on), None);
    assert_eq!(update_audio_settings(&mut current, AudioSettings::default()), Some(false));
}

#[test]
fn devices_described() {
    let d = describe_device(true, 0, Some("Speakers".to_string()), Some("Speakers".to_string()));
    assert_eq!(d.id, "Speakers");
    assert_eq!(d.name, "Speakers");
    assert!(d.is_default);
    assert_eq!(d.role, AudioDeviceRole::Output);
    let d = describe_device(false, 12, None, Some("Mic".to_string()));
    assert_eq!(d.name, "Input 12");
    assert_eq!(d.id, "Input 12");
    assert!(!d.is_default);
    assert_eq!(d.role, AudioDeviceRole::Input);
    let d = describe_device(true, 3, None, None);
    assert_eq!(d.name, "Output 3");
    assert!(!d.is_default);
}

#[test]
fn advertisement() {
    let peer = local_peer(None, OperatingSystem::MacOS, "0.1.0".to_string());
    assert_eq!(peer.hostname, "unknown");
    assert_eq!((peer.screen_width, peer.screen_height), (1920, 1080));
    assert_eq!(peer.control_port, 51200);
    assert_eq!(service_instance_name(&"box".to_string()), "mac2win-box");
    assert_eq!(service_host_name(&"box".to_string()), "box.local.");
    let props = advert_properties(&peer);
    assert_eq!(
        props,
        vec![
            ("os".to_string(), "MacOS".to_string()),
            ("version".to_string(), "0.1.0".to_string()),
            ("resolution".to_string(), "1920x1080".to_string()),
        ]
    );
}

#[test]
fn os_labels() {
    assert_eq!(os_label(OperatingSystem::Windows), "Windows");
    assert_eq!(os_label(OperatingSystem::Linux), "Linux");
    assert_eq!(os_from_label(&"MacOS".to_string()), OperatingSystem::MacOS);
    assert_eq!(os_from_label(&"Windows".to_string()), OperatingSystem::Windows);
    assert_eq!(os_from_label(&"Linux".to_string()), OperatingSystem::Windows);
    assert_eq!(os_from_label(&"os=MacOS".to_string()), OperatingSystem::Windows);
}

#[test]
fn discovered_peer() {
    let p = peer_from_service(
        "box.local.".to_string(),
        51200,
        Some("MacOS".to_string()),
        Some("0.2.0".to_string()),
        Some("2560x1440".to_string()),
    );
    assert_eq!(p.hostname, "box.local.");
    assert_eq!(p.os, OperatingSystem::MacOS);
    assert_eq!(p.app_version, "0.2.0");
    assert_eq!((p.screen_width, p.screen_height), (2560, 1440));
    assert_eq!((p.video_port, p.input_port, p.clipboard_port, p.audio_port), (51201, 51202, 51203, 51204));
    let q = peer_from_service("h".to_string(), 1, None, None, None);
    assert_eq!(q.os, OperatingSystem::Windows);
    assert_eq!(q.app_version, "");
    assert_eq!((q.screen_width, q.screen_height), (1920, 1080));
}

#[test]
fn peer_table() {
    let mut table = PeerTable::new();
    assert!(table.peers().is_empty());
    let a = local_peer(Some("a".to_string()), OperatingSystem::Windows, "1".to_string());
    let b = local_peer(Some("b".to_string()), OperatingSystem::MacOS, "1".to_string());
    table.record_found("A".to_string(), a.clone());
    table.record_found("B".to_string(), b.clone());
    table.record_found("A".to_string(), b.clone());
    let peers = table.peers();
    assert_eq!(peers.len(), 2);
    let a_entry = peers.iter().find(|(id, _)| id == "A").unwrap();
    assert_eq!(a_entry.1.hostname, "b");
    assert!(table.record_lost(&"A".to_string()));
    assert!(!table.record_lost(&"A".to_string()));
    let peers = table.peers();
    assert_eq!(peers.len(), 1);
    assert_eq!(peers[0].0, "B");
}
