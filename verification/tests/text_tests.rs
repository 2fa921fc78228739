use pipeflow::ids::{GroupId, NodeIdentifier, RuleId};
use pipeflow::text::{contains_ignore_case, join_strings, parse_u32};

#[test]
fn test_group_creation_id() {
    let id = GroupId::new();
    assert!(!id.is_nil());
    assert_ne!(GroupId::new(), GroupId::new());
    assert_ne!(RuleId::new(), RuleId::new());
    // version 4, variant 1 bits
    assert_eq!((id.0 >> 76) & 0xf, 4);
    assert_eq!((id.0 >> 62) & 0x3, 2);
}

#[test]
fn lowercasing_and_search() {
    assert!(contains_ignore_case("SPEAKers", "speakERS"));
    assert!(contains_ignore_case("SPEAKERS", "speak"));
    assert!(contains_ignore_case("speakers", "SPEAK"));
    assert!(!contains_ignore_case("mic", "speak"));
}

#[test]
fn parsing_numbers() {
    assert_eq!(parse_u32("42"), Some(42));
    assert_eq!(parse_u32("+7"), Some(7));
    assert_eq!(parse_u32("4294967295"), Some(u32::MAX));
    assert_eq!(parse_u32("4294967296"), None);
    assert_eq!(parse_u32(""), None);
    assert_eq!(parse_u32("-1"), None);
    assert_eq!(parse_u32("1a"), None);
}

#[test]
fn joining() {
    let v = vec!["a".to_string(), "b".to_string(), "c".to_string()];
    assert_eq!(join_strings(&v, ", "), "a, b, c");
    assert_eq!(join_strings(&Vec::new(), ", "), "");
}

#[test]
fn node_identifier_fields() {
    let id = NodeIdentifier::new("n".to_string(), Some("app".to_string()), None);
    assert_eq!(id.name, "n");
    assert_eq!(id.application_name, Some("app".to_string()));
    assert_eq!(id.media_class, None);
}
