use mac2win::clipboard::{
    content_size_of, decoded_image_write, file_list_snapshot, image_snapshot, pad_pixels,
    png_snapshot, rich_text_snapshot, text_snapshot, write_plan, ClipboardSync, ClipboardWrite,
    IncomingDecision,
};
use mac2win::hashing::{hash_bytes, hash_str, hash_str_pair, hash_strs};
use mac2win::protocol::{ClipboardContent, ClipboardDirection, ClipboardSettings};

fn text(s: &str) -> ClipboardContent {
    ClipboardContent::Text(s.to_string())
}

#[test]
fn content_sizes() {
    assert_eq!(content_size_of(&text("héllo")), 6);
    let rich = ClipboardContent::RichText { html: "<b>x</b>".to_string(), plain: "x".to_string() };
    assert_eq!(content_size_of(&rich), 9);
    let image = ClipboardContent::Image { data: vec![0; 17], width: 1, height: 1 };
    assert_eq!(content_size_of(&image), 17);
    let files = ClipboardContent::FileList { paths: vec!["/a".to_string(), "/bcd".to_string()] };
    assert_eq!(content_size_of(&files), 6);
}

#[test]
fn incoming_updates_are_applied_once_in_order() {
    let mut sync = ClipboardSync::new(ClipboardSettings::default());
    assert_eq!(sync.accept_incoming(&text("a"), 1), IncomingDecision::Apply);
    assert_eq!(sync.remote_sequence, 1);
    assert_eq!(sync.accept_incoming(&text("a"), 1), IncomingDecision::Stale);
    assert_eq!(sync.accept_incoming(&text("b"), 0), IncomingDecision::Stale);
    assert_eq!(sync.accept_incoming(&text("c"), 5), IncomingDecision::Apply);
    assert_eq!(sync.accept_incoming(&text("d"), 3), IncomingDecision::Stale);
    assert_eq!(sync.remote_sequence, 5);
}

#[test]
fn incoming_updates_refused() {
    let mut settings = ClipboardSettings::default();
    settings.direction = ClipboardDirection::LocalToRemote;
    let mut sync = ClipboardSync::new(settings);
    assert_eq!(sync.accept_incoming(&text("a"), 1), IncomingDecision::NotAccepted);
    assert_eq!(sync.remote_sequence, 0);

    let mut settings = ClipboardSettings::default();
    settings.enabled = false;
    let mut sync = ClipboardSync::new(settings);
    assert_eq!(sync.accept_incoming(&text("a"), 1), IncomingDecision::NotAccepted);

    let mut settings = ClipboardSettings::default();
    settings.max_content_size = 3;
    let mut sync = ClipboardSync::new(settings);
    assert_eq!(sync.accept_incoming(&text("abcd"), 1), IncomingDecision::TooLarge);
    assert_eq!(sync.accept_incoming(&text("abc"), 1), IncomingDecision::Apply);

    let mut sync = ClipboardSync::new(ClipboardSettings::default());
    let files = ClipboardContent::FileList { paths: vec!["/a".to_string()] };
    assert_eq!(sync.accept_incoming(&files, 1), IncomingDecision::KindNotSynced);
    sync.settings.sync_images = false;
    let image = ClipboardContent::Image { data: vec![1], width: 1, height: 1 };
    assert_eq!(sync.accept_incoming(&image, 1), IncomingDecision::KindNotSynced);
    assert_eq!(sync.remote_sequence, 0);
}

fn reading(s: &str, hash: u64) -> Option<(ClipboardContent, u64)> {
    Some((text(s), hash))
}

#[test]
fn local_changes_announced_once_each() {
    let mut sync = ClipboardSync::new(ClipboardSettings::default());
    assert!(sync.polling_enabled());
    assert_eq!(sync.observe_local(&reading("a", 10)), Some(1));
    assert_eq!(sync.observe_local(&reading("a", 10)), None);
    assert_eq!(sync.observe_local(&reading("b", 11)), Some(2));
    assert_eq!(sync.observe_local(&None), None);
    assert_eq!(sync.last_hash, None);
    assert_eq!(sync.observe_local(&reading("b", 11)), Some(3));
    assert_eq!(sync.local_sequence, 3);
}

#[test]
fn unsendable_local_content_is_not_announced() {
    let mut settings = ClipboardSettings::default();
    settings.max_content_size = 3;
    let mut sync = ClipboardSync::new(settings);
    assert!(!sync.outgoing_allowed(&text("abcd")));
    assert_eq!(sync.observe_local(&reading("abcd", 1)), None);
    assert_eq!(sync.last_hash, Some(1));
    assert_eq!(sync.local_sequence, 0);
    assert_eq!(sync.observe_local(&reading("abc", 2)), Some(1));
    let files = ClipboardContent::FileList { paths: vec!["/a".to_string()] };
    assert!(!sync.outgoing_allowed(&files));
    assert_eq!(sync.observe_local(&Some((files, 3))), None);
    assert_eq!(sync.local_sequence, 1);
}

#[test]
fn polling_follows_settings() {
    let mut sync = ClipboardSync::new(ClipboardSettings::default());
    assert!(sync.image_reading_enabled());
    assert!(!sync.file_reading_enabled());
    let mut receive_only = ClipboardSettings::default();
    receive_only.direction = ClipboardDirection::RemoteToLocal;
    assert_eq!(sync.update_settings(receive_only), None);
    assert!(!sync.polling_enabled());
    let mut off = receive_only;
    off.enabled = false;
    assert_eq!(sync.update_settings(off), Some(false));
    assert_eq!(sync.update_settings(ClipboardSettings::default()), Some(true));
    assert!(sync.polling_enabled());
}

#[test]
fn pixels_keep_their_order() {
    assert_eq!(pad_pixels(&[1, 2, 3, 4, 5, 6, 7, 8]), vec![1, 2, 3, 4, 5, 6, 7, 8]);
    assert_eq!(pad_pixels(&[1, 2, 3, 4, 5, 6]), vec![1, 2, 3, 4, 0, 0, 0, 0]);
    assert_eq!(pad_pixels(&[]), Vec::<u8>::new());
}

#[test]
fn rich_text_and_file_list_snapshots() {
    assert!(rich_text_snapshot(String::new(), "p".to_string()).is_none());
    let (content, hash) = rich_text_snapshot("<b>p</b>".to_string(), "p".to_string()).unwrap();
    match content {
        ClipboardContent::RichText { html, plain } => assert_eq!((html.as_str(), plain.as_str()), ("<b>p</b>", "p")),
        other => panic!("unexpected {:?}", other),
    }
    assert_eq!(hash, hash_str_pair("<b>p</b>", "p"));
    assert!(file_list_snapshot(vec![]).is_none());
    let paths = vec!["/a".to_string(), "/b".to_string()];
    let (content, hash) = file_list_snapshot(paths.clone()).unwrap();
    match content {
        ClipboardContent::FileList { paths: p } => assert_eq!(p, paths),
        other => panic!("unexpected {:?}", other),
    }
    assert_eq!(hash, hash_strs(&paths));
}

#[test]
fn text_snapshots() {
    assert!(text_snapshot(String::new()).is_none());
    let (content, hash) = text_snapshot("copied".to_string()).unwrap();
    match content {
        ClipboardContent::Text(t) => assert_eq!(t, "copied"),
        other => panic!("unexpected {:?}", other),
    }
    assert_eq!(hash, hash_str("copied"));
}

#[test]
fn image_snapshot_encodes_png_that_decodes_back() {
    // two RGBA pixels, as the clipboard gives them
    let rgba_in = [200u8, 10, 20, 255, 0, 0, 255, 128];
    let (content, hash) = image_snapshot(2, 1, &rgba_in).unwrap();
    let data = match &content {
        ClipboardContent::Image { data, width, height } => {
            assert_eq!((*width, *height), (2, 1));
            data.clone()
        }
        other => panic!("unexpected {:?}", other),
    };
    assert_eq!(&data[..8], &[0x89, b'P', b'N', b'G', 0x0d, 0x0a, 0x1a, 0x0a]);
    assert_eq!(hash, hash_bytes(&data));
    match write_plan(&content) {
        ClipboardWrite::Image { width, height, rgba } => {
            assert_eq!((width, height), (2, 1));
            assert_eq!(rgba, rgba_in.to_vec());
        }
        other => panic!("unexpected {:?}", other),
    }
}

#[test]
fn image_snapshot_needs_enough_pixels() {
    assert!(image_snapshot(2, 2, &[1, 2, 3, 4]).is_none());
}

#[test]
fn image_snapshot_refuses_empty_images() {
    assert!(image_snapshot(0, 3, &[1, 2, 3, 4]).is_none());
    assert!(image_snapshot(1, 0, &[1, 2, 3, 4]).is_none());
}

#[test]
fn png_snapshot_keeps_data() {
    let (content, hash) = png_snapshot(vec![1, 2, 3], 4, 5);
    match content {
        ClipboardContent::Image { data, width, height } => {
            assert_eq!((data, width, height), (vec![1, 2, 3], 4, 5));
        }
        other => panic!("unexpected {:?}", other),
    }
    assert_eq!(hash, hash_bytes(&[1, 2, 3]));
}

#[test]
fn write_plans() {
    match write_plan(&text("t")) {
        ClipboardWrite::Text(t) => assert_eq!(t, "t"),
        other => panic!("unexpected {:?}", other),
    }
    let rich = ClipboardContent::RichText { html: "<i>p</i>".to_string(), plain: "p".to_string() };
    match write_plan(&rich) {
        ClipboardWrite::Html { html, plain } => assert_eq!((html.as_str(), plain.as_str()), ("<i>p</i>", "p")),
        other => panic!("unexpected {:?}", other),
    }
    let files = ClipboardContent::FileList { paths: vec!["/x".to_string(), "/y".to_string()] };
    match write_plan(&files) {
        ClipboardWrite::Text(t) => assert_eq!(t, "/x\n/y"),
        other => panic!("unexpected {:?}", other),
    }
    let junk = ClipboardContent::Image { data: vec![1, 2, 3], width: 1, height: 1 };
    assert!(matches!(write_plan(&junk), ClipboardWrite::Nothing));
    assert!(matches!(decoded_image_write(None), ClipboardWrite::Nothing));
    match decoded_image_write(Some((1, 2, vec![9; 8]))) {
        ClipboardWrite::Image { width, height, rgba } => assert_eq!((width, height, rgba), (1, 2, vec![9; 8])),
        other => panic!("unexpected {:?}", other),
    }
}
