use mac2win::connection::{
    handshake_token_valid, Admission, ControlAdmission,
    build_media_packet, control_body_length, frame_control_message, header_read_failure,
    media_datagrams, split_datagrams, u32_from_le, LinkDrop, DATAGRAM_CHUNK, MAX_CONTROL_MESSAGE,
};
use mac2win::protocol::{
    AudioDirection, AudioSettings, ClipboardDirection, ClipboardSettings, KeyModifiers,
    NetworkSettings, OperatingSystem, AUDIO_PORT, CLIPBOARD_PORT, CONTROL_PORT, INPUT_PORT,
    PROTOCOL_VERSION, SERVICE_TYPE, VIDEO_PORT,
};

#[test]
fn ports_and_service_type_match_the_documented_table() {
    assert_eq!(CONTROL_PORT, 51200);
    assert_eq!(VIDEO_PORT, 51201);
    assert_eq!(INPUT_PORT, 51202);
    assert_eq!(CLIPBOARD_PORT, 51203);
    assert_eq!(AUDIO_PORT, 51204);
    assert_eq!(SERVICE_TYPE, "_mac2win._tcp.local.");
    assert_eq!(PROTOCOL_VERSION, 1);
}

#[test]
fn current_os_follows_the_target_name() {
    assert_eq!(OperatingSystem::current("windows"), OperatingSystem::Windows);
    assert_eq!(OperatingSystem::current("macos"), OperatingSystem::MacOS);
    assert_eq!(OperatingSystem::current("linux"), OperatingSystem::Linux);
    assert_eq!(OperatingSystem::current("freebsd"), OperatingSystem::Linux);
}

#[test]
fn settings_defaults() {
    let c = ClipboardSettings::default();
    assert!(c.enabled);
    assert_eq!(c.direction, ClipboardDirection::Bidirectional);
    assert_eq!(c.max_content_size, 10 * 1024 * 1024);
    assert!(c.sync_images);
    assert!(!c.sync_files);

    let a = AudioSettings::default();
    assert!(!a.enabled);
    assert_eq!(a.direction, AudioDirection::LocalToRemote);
    assert!(a.output_device_id.is_none());
    assert!(a.input_device_id.is_none());
    assert!(a.capture_system_audio);
    assert_eq!(a.bitrate_kbps, 128);
    assert!(a.echo_cancellation);

    let n = NetworkSettings::default();
    assert!(n.auto_discover);
    assert_eq!(n.port, 51200);
    assert!(n.require_auth);
    assert!(n.auth_key.is_none());

    let m = KeyModifiers::default();
    assert!(!m.ctrl && !m.alt && !m.shift && !m.meta);
}

#[test]
fn control_frame_is_length_prefixed_little_endian() {
    let frame = frame_control_message(&[7, 8, 9]);
    assert_eq!(frame, vec![3, 0, 0, 0, 7, 8, 9]);
    let body: Vec<u8> = (0..300u32).map(|i| (i % 251) as u8).collect();
    let frame = frame_control_message(&body);
    assert_eq!(&frame[..4], &[44, 1, 0, 0]);
    assert_eq!(&frame[4..], &body[..]);
}

#[test]
fn control_frame_read_back_by_receiver() {
    let body = b"handshake bytes".to_vec();
    let frame = frame_control_message(&body);
    let prefix = [frame[0], frame[1], frame[2], frame[3]];
    assert_eq!(control_body_length(prefix), Some(body.len()));
    assert_eq!(&frame[4..], &body[..]);
}

#[test]
fn receiver_limit_is_ten_mebibytes() {
    assert_eq!(MAX_CONTROL_MESSAGE, 10 * 1024 * 1024);
    assert_eq!(control_body_length(10485760u32.to_le_bytes()), Some(10485760));
    assert_eq!(control_body_length(10485761u32.to_le_bytes()), None);
    assert_eq!(control_body_length([0, 0, 0, 0]), Some(0));
    assert_eq!(control_body_length([255, 255, 255, 255]), None);
}

#[test]
fn le_prefix_value() {
    assert_eq!(u32_from_le([0x78, 0x56, 0x34, 0x12]), 0x12345678);
    assert_eq!(u32_from_le([255, 255, 255, 255]), u32::MAX);
}

#[test]
fn read_failures() {
    match header_read_failure(true, "ignored".to_string()) {
        LinkDrop::Disconnected { reason } => assert_eq!(reason, "Connection closed"),
        other => panic!("unexpected {:?}", other),
    }
    match header_read_failure(false, "reset by peer".to_string()) {
        LinkDrop::Error(text) => assert_eq!(text, "reset by peer"),
        other => panic!("unexpected {:?}", other),
    }
}

#[test]
fn media_packet_layout() {
    let packet = build_media_packet(&[1, 2], &[3, 4, 5]);
    assert_eq!(packet, vec![2, 0, 0, 0, 1, 2, 3, 4, 5]);
}

#[test]
fn small_packet_is_one_datagram() {
    let d = media_datagrams(&[1, 2], &[3]);
    assert_eq!(d.len(), 1);
    assert_eq!(d[0], vec![0, 0, 1, 0, 2, 0, 0, 0, 1, 2, 3]);
}

#[test]
fn large_packet_is_split_and_reassembles() {
    assert_eq!(DATAGRAM_CHUNK, 60000);
    let packet: Vec<u8> = (0..130_001u32).map(|i| (i % 253) as u8).collect();
    let d = split_datagrams(&packet);
    assert_eq!(d.len(), 3);
    for (i, dg) in d.iter().enumerate() {
        assert_eq!(u16::from_le_bytes([dg[0], dg[1]]) as usize, i);
        assert_eq!(u16::from_le_bytes([dg[2], dg[3]]), 3);
        assert!(dg.len() <= 60004);
    }
    assert_eq!(d[0].len(), 60004);
    assert_eq!(d[2].len(), 4 + 10001);
    let joined: Vec<u8> = d.iter().flat_map(|dg| dg[4..].to_vec()).collect();
    assert_eq!(joined, packet);
}

#[test]
fn exact_multiple_announces_one_more_chunk() {
    let packet = vec![9u8; 120_000];
    let d = split_datagrams(&packet);
    assert_eq!(d.len(), 2);
    assert_eq!(u16::from_le_bytes([d[0][2], d[0][3]]), 3);
    assert!(split_datagrams(&[]).is_empty());
}

#[test]
fn admission_without_auth_reports_everything() {
    let mut a = ControlAdmission::new(false);
    assert_eq!(a.decide(false, false), Admission::Report);
    assert_eq!(a.decide(true, false), Admission::Report);
}

#[test]
fn admission_with_auth_needs_a_valid_handshake_first() {
    let mut a = ControlAdmission::new(true);
    assert_eq!(a.decide(true, true), Admission::Report);
    assert_eq!(a.decide(false, false), Admission::Report);
    let mut b = ControlAdmission::new(true);
    assert_eq!(b.decide(true, false), Admission::Close);
    assert_eq!(b.decide(true, true), Admission::Close);
    let mut c = ControlAdmission::new(true);
    assert_eq!(c.decide(false, false), Admission::Close);
    assert!(c.closed && !c.authenticated);
}

#[test]
fn handshake_tokens() {
    let t = [7u8; 32];
    let mut u = t;
    u[31] = 8;
    assert!(handshake_token_valid(&t, &Some(t)));
    assert!(!handshake_token_valid(&u, &Some(t)));
    assert!(!handshake_token_valid(&t, &None));
}
