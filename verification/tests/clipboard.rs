use clipsync::clipboard::{
    compute_hash, content_size, decode_image_data, encode_image_data, hashes_equal, plan_write,
    select_format, take_snapshot, ClipboardContent, ClipboardWrite, RgbaImage, WatchOutcome,
    Watcher,
};
use clipsync::config::ClipboardPriority;

fn text_content(text: &str) -> ClipboardContent {
    ClipboardContent {
        content_type: "text".to_string(),
        text: Some(text.to_string()),
        image_data: None,
        content_hash: compute_hash(Some(text), None),
    }
}

fn image(width: usize, height: usize) -> RgbaImage {
    RgbaImage { width, height, bytes: vec![7; 4 * width * height] }
}

#[test]
fn test_compute_hash_different_content() {
    let h1 = compute_hash(Some("hello"), None);
    let h2 = compute_hash(Some("world"), None);
    assert_ne!(h1, h2);
}

#[test]
fn test_compute_hash_same_content() {
    let h1 = compute_hash(Some("hello"), None);
    let h2 = compute_hash(Some("hello"), None);
    assert_eq!(h1, h2);
}

#[test]
fn test_compute_hash_empty() {
    let h = compute_hash(None, None);
    assert!(!h.is_empty());
}

#[test]
fn test_content_size() {
    let content = ClipboardContent {
        content_type: "text".into(),
        text: Some("hello".into()),
        image_data: None,
        content_hash: "abc".into(),
    };
    assert!(content_size(&content) > 5);
}

#[test]
fn hashes_are_sha256_of_marked_content() {
    assert_eq!(
        compute_hash(Some("hello"), None),
        "eadf732aba96d643feaa39909a300bc8a25b15fabdf41bf20819b8ce8fd3746f"
    );
    assert_eq!(
        compute_hash(None, Some(&[1, 2, 3])),
        "81fa5edbacedd14773e9b848eabff0b334bcad97c6d5af76cbc3b3fa9c188853"
    );
    assert_eq!(
        compute_hash(None, None),
        "2e1cfa82b035c26cbbbdae632cea070514eb8b773f616aaeaf668e2f0be8f10d"
    );
}

#[test]
fn a_text_is_not_hashed_like_an_image() {
    assert_ne!(compute_hash(Some("abc"), None), compute_hash(None, Some(b"abc")));
    assert_ne!(compute_hash(Some(""), None), compute_hash(None, None));
    assert_ne!(compute_hash(None, Some(b"")), compute_hash(None, None));
}

#[test]
fn the_size_of_content_is_its_bytes_and_a_hundred() {
    assert_eq!(content_size(&text_content("hello")), 105);
    assert_eq!(content_size(&text_content("ä")), 102);
    let both = ClipboardContent {
        content_type: "image".to_string(),
        text: Some("abc".to_string()),
        image_data: Some(vec![0; 10]),
        content_hash: String::new(),
    };
    assert_eq!(content_size(&both), 113);
    assert_eq!(both.payload_size(), 13);
}

#[test]
fn equal_hashes_are_equal() {
    assert!(hashes_equal("ab", "ab"));
    assert!(!hashes_equal("ab", "aB"));
    assert!(!hashes_equal("ab", "abc"));
    assert!(hashes_equal("", ""));
}

#[test]
fn an_image_is_put_in_its_container() {
    let shown = RgbaImage { width: 0x0102, height: 3, bytes: vec![9, 8, 7, 6] };
    assert_eq!(
        encode_image_data(&shown),
        Some(vec![0, 0, 1, 2, 0, 0, 0, 3, 9, 8, 7, 6])
    );
    assert_eq!(encode_image_data(&RgbaImage { width: 1, height: 1, bytes: vec![] }), None);
}

#[test]
fn an_image_comes_back_of_its_container() {
    let shown = RgbaImage { width: 70_000, height: 0x7fff_ffff, bytes: vec![1, 2, 3, 4, 5] };
    let back = decode_image_data(&encode_image_data(&shown).unwrap()).unwrap();
    assert_eq!(back.width, 70_000);
    assert_eq!(back.height, 0x7fff_ffff);
    assert_eq!(back.bytes, vec![1, 2, 3, 4, 5]);
}

#[test]
fn a_width_is_cut_to_32_bits() {
    let shown = RgbaImage { width: 0x1_0000_0005, height: 1, bytes: vec![1] };
    let back = decode_image_data(&encode_image_data(&shown).unwrap()).unwrap();
    assert_eq!(back.width, 5);
}

#[test]
fn a_container_has_at_least_eight_bytes() {
    assert_eq!(decode_image_data(&[0; 7]).unwrap_err(), "Image data too short");
    assert_eq!(decode_image_data(&[0, 0, 0, 1, 0, 0, 0, 2]).unwrap().height, 2);
}

#[test]
fn the_priority_picks_the_format() {
    let text = Some("t".to_string());
    let data = Some(vec![1u8]);
    let both = |priority| {
        let choice = select_format(&text, &data, &priority);
        (choice.0.is_some(), choice.1.is_some(), choice.2)
    };
    assert_eq!(both(ClipboardPriority::ImageFirst), (false, true, "image"));
    assert_eq!(both(ClipboardPriority::TextFirst), (true, false, "text"));
    assert_eq!(both(ClipboardPriority::TextOnly), (true, false, "text"));
    assert_eq!(both(ClipboardPriority::ImageOnly), (false, true, "image"));
    let only_text = |priority| select_format(&text, &None, &priority).2;
    assert_eq!(only_text(ClipboardPriority::ImageFirst), "text");
    assert_eq!(only_text(ClipboardPriority::ImageOnly), "none");
    let only_image = |priority| select_format(&None, &data, &priority).2;
    assert_eq!(only_image(ClipboardPriority::TextFirst), "image");
    assert_eq!(only_image(ClipboardPriority::TextOnly), "text");
    let nothing = |priority| select_format(&None, &None, &priority).2;
    assert_eq!(nothing(ClipboardPriority::ImageFirst), "none");
    assert_eq!(nothing(ClipboardPriority::TextFirst), "none");
    assert_eq!(nothing(ClipboardPriority::TextOnly), "text");
}

#[test]
fn a_snapshot_holds_the_chosen_format_and_its_hash() {
    let text = Some("hello".to_string());
    let shown = Some(image(1, 2));
    let snapshot = take_snapshot(&text, &shown, &ClipboardPriority::ImageFirst);
    assert!(snapshot.text.is_none());
    let data = snapshot.image_data.unwrap();
    assert_eq!(data.len(), 16);
    assert_eq!(snapshot.hash, compute_hash(None, Some(&data)));
    let snapshot = take_snapshot(&text, &shown, &ClipboardPriority::TextFirst);
    assert_eq!(snapshot.text.as_deref(), Some("hello"));
    assert_eq!(snapshot.hash, compute_hash(Some("hello"), None));
}

#[test]
fn the_watcher_reports_changes_only() {
    let mut watcher = Watcher::new();
    let text = Some("hello".to_string());
    let priority = ClipboardPriority::ImageFirst;
    match watcher.observe(&text, &None, &priority, 1000) {
        WatchOutcome::Changed(content) => {
            assert_eq!(content.content_type, "text");
            assert_eq!(content.text.as_deref(), Some("hello"));
            assert_eq!(content.content_hash, compute_hash(Some("hello"), None));
        }
        _ => panic!("a first look finds a change"),
    }
    assert!(matches!(watcher.observe(&text, &None, &priority, 1000), WatchOutcome::Unchanged));
    match watcher.observe(&text, &Some(image(2, 2)), &priority, 1000) {
        WatchOutcome::Changed(content) => {
            assert_eq!(content.content_type, "image");
            assert!(content.text.is_none());
        }
        _ => panic!("an image is a change"),
    }
    assert!(matches!(watcher.observe(&text, &None, &priority, 1000), WatchOutcome::Changed(_)));
}

#[test]
fn the_watcher_notes_what_is_too_large_once() {
    let mut watcher = Watcher::new();
    let text = Some("hello".to_string());
    let priority = ClipboardPriority::TextOnly;
    match watcher.observe(&text, &None, &priority, 104) {
        WatchOutcome::TooLarge(notice) => {
            assert_eq!(notice.title, "ClipSync");
            assert_eq!(
                notice.body,
                "Clipboard payload 105 bytes exceeds limit 104 bytes; skipping."
            );
        }
        _ => panic!("105 bytes are over the limit"),
    }
    assert!(matches!(watcher.observe(&text, &None, &priority, 104), WatchOutcome::Unchanged));
    let mut fresh = Watcher::new();
    assert!(matches!(fresh.observe(&text, &None, &priority, 105), WatchOutcome::Changed(_)));
}

#[test]
fn an_empty_clipboard_is_content_too() {
    let mut watcher = Watcher::new();
    match watcher.observe(&None, &None, &ClipboardPriority::ImageFirst, 1000) {
        WatchOutcome::Changed(content) => {
            assert_eq!(content.content_type, "text");
            assert!(content.text.is_none());
            assert_eq!(content.content_hash, compute_hash(None, None));
            assert!(matches!(plan_write(&content), Ok(ClipboardWrite::Nothing)));
        }
        _ => panic!("a first look finds a change"),
    }
}

#[test]
fn text_is_written_as_text() {
    match plan_write(&text_content("hello")) {
        Ok(ClipboardWrite::Text(text)) => assert_eq!(text, "hello"),
        _ => panic!("text is to be written"),
    }
}

#[test]
fn an_image_is_written_as_an_image() {
    let content = ClipboardContent {
        content_type: "image".to_string(),
        text: None,
        image_data: encode_image_data(&image(3, 2)),
        content_hash: "h".to_string(),
    };
    match plan_write(&content) {
        Ok(ClipboardWrite::Image(shown)) => {
            assert_eq!((shown.width, shown.height), (3, 2));
            assert_eq!(shown.bytes, vec![7; 24]);
        }
        _ => panic!("an image is to be written"),
    }
}

#[test]
fn content_that_cannot_be_written_is_refused() {
    let mut content = text_content("hello");
    content.content_type = "file".to_string();
    assert_eq!(plan_write(&content).err().unwrap(), "Unknown content type: file");
    content.content_type = "image".to_string();
    assert!(matches!(plan_write(&content), Ok(ClipboardWrite::Nothing)));
    content.image_data = Some(vec![0; 7]);
    assert_eq!(plan_write(&content).err().unwrap(), "Image data too short");
}

#[test]
fn content_is_an_array_of_four_in_messagepack() {
    let mut content = ClipboardContent {
        content_type: "text".to_string(),
        text: Some("hi".to_string()),
        image_data: None,
        content_hash: "h".to_string(),
    };
    assert_eq!(
        content.to_payload().unwrap(),
        [0x94, 0xa4, b't', b'e', b'x', b't', 0xa2, b'h', b'i', 0xc0, 0xa1, b'h']
    );
    content.text = None;
    content.image_data = Some(vec![1, 200]);
    assert_eq!(
        content.to_payload().unwrap(),
        [0x94, 0xa4, b't', b'e', b'x', b't', 0xc0, 0xc4, 2, 1, 200, 0xa1, b'h']
    );
}

#[test]
fn content_comes_back_of_messagepack() {
    let content = ClipboardContent {
        content_type: "image".to_string(),
        text: None,
        image_data: Some(vec![0, 255, 128]),
        content_hash: "hash".to_string(),
    };
    let back = ClipboardContent::from_payload(&content.to_payload().unwrap()).unwrap();
    assert_eq!(back.content_type, "image");
    assert_eq!(back.text, None);
    assert_eq!(back.image_data, Some(vec![0, 255, 128]));
    assert_eq!(back.content_hash, "hash");
    let copy = back.clone();
    assert_eq!(copy.image_data, Some(vec![0, 255, 128]));
}

#[test]
fn three_fields_are_no_content() {
    let payload = [0x93, 0xa4, b't', b'e', b'x', b't', 0xa2, b'h', b'i', 0xa1, b'h'];
    assert!(ClipboardContent::from_payload(&payload).is_err());
    assert!(ClipboardContent::from_payload(&[]).is_err());
}
