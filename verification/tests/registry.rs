use clipsync::registry::Registry;
use clipsync::text::{decimal_text, digit_text, joined, same_text, text_sorts_before};

#[test]
fn a_registry_keeps_one_value_for_a_key() {
    let mut registry: Registry<u8> = Registry::new();
    assert_eq!(registry.len(), 0);
    assert_eq!(registry.insert("a".to_string(), 1), None);
    assert_eq!(registry.insert("b".to_string(), 2), None);
    assert_eq!(registry.insert("a".to_string(), 3), Some(1));
    assert_eq!(registry.len(), 2);
    assert_eq!(registry.get("a"), Some(&3));
    assert!(registry.contains("b"));
    assert_eq!(registry.remove("b"), Some(2));
    assert_eq!(registry.remove("b"), None);
    assert_eq!(registry.keys(), vec!["a".to_string()]);
    assert_eq!(registry.get("b"), None);
}

#[test]
fn numbers_are_written_in_decimal() {
    assert_eq!(decimal_text(0), "0");
    assert_eq!(decimal_text(907), "907");
    assert_eq!(decimal_text(u64::MAX as u128), "18446744073709551615");
    assert_eq!(digit_text(8), "8");
}

#[test]
fn texts_are_compared_by_their_bytes() {
    assert!(same_text("ä", "ä"));
    assert!(!same_text("a", "ä"));
    assert!(text_sorts_before("", "a"));
    assert!(text_sorts_before("a", "ab"));
    assert!(!text_sorts_before("b", "ab"));
    assert!(!text_sorts_before("a", "a"));
    assert_eq!(joined("ab", "c"), "abc");
}
