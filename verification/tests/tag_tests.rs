use bentoml_core::errors::{DecodeError, TagError};
use bentoml_core::tag::{Tag, TagLike};
use bentoml_core::validate::validate_tag_str;

#[test]
fn construct_lowercase_round_trip() {
    let t = Tag::new("abc".to_string(), None).unwrap();
    assert_eq!(t.to_string(), "abc");
    let t2 = Tag::new("AbC".to_string(), None).unwrap();
    assert_eq!(t2.to_string(), "abc");
}

#[test]
fn construct_normalizes_name_and_version() {
    let t = Tag::new("Ab_C".to_string(), Some("1.0".to_string())).unwrap();
    assert_eq!(t.name().as_str(), "ab_c");
    assert_eq!(t.version().as_deref(), Some("1.0"));
    assert_eq!(t.to_string(), "ab_c:1.0");
}

#[test]
fn construct_rejects_leading_non_alphanumeric() {
    let r = Tag::new("-bad".to_string(), None);
    assert_eq!(r.unwrap_err(), TagError::InvalidFormat);
}

#[test]
fn construct_rejects_over_long_name() {
    let long = "x".repeat(64);
    let r = Tag::new(long, None);
    assert_eq!(r.unwrap_err(), TagError::TooLong);
    let ok = "x".repeat(63);
    assert!(Tag::new(ok, None).is_ok());
}

#[test]
fn construct_rejects_bad_version() {
    let r = Tag::new("good".to_string(), Some("bad!".to_string()));
    assert_eq!(r.unwrap_err(), TagError::InvalidFormat);
}

#[test]
fn validate_rules() {
    assert!(validate_tag_str("a").is_ok());
    assert!(validate_tag_str("a-b.c_d9").is_ok());
    assert_eq!(validate_tag_str("").unwrap_err(), TagError::InvalidFormat);
    assert_eq!(validate_tag_str("a-").unwrap_err(), TagError::InvalidFormat);
    assert_eq!(validate_tag_str(".a").unwrap_err(), TagError::InvalidFormat);
    assert_eq!(validate_tag_str("A").unwrap_err(), TagError::InvalidFormat);
    assert_eq!(validate_tag_str("a:b").unwrap_err(), TagError::InvalidFormat);
    assert_eq!(
        validate_tag_str(&"y".repeat(64)).unwrap_err(),
        TagError::TooLong
    );
}

#[test]
fn parse_name_only() {
    let t = Tag::from_str("model").unwrap();
    assert_eq!(t.name().as_str(), "model");
    assert!(t.version().is_none());
}

#[test]
fn parse_name_and_version() {
    let t = Tag::from_str("Model:V1").unwrap();
    assert_eq!(t.name().as_str(), "model");
    assert_eq!(t.version().as_deref(), Some("v1"));
}

#[test]
fn parse_two_colons_is_malformed() {
    let r = Tag::from_str("a:b:c");
    assert_eq!(r.unwrap_err(), TagError::MalformedTag);
}

#[test]
fn parse_bad_name_reported_before_malformed() {
    let r = Tag::from_str("-a:b:c");
    assert_eq!(r.unwrap_err(), TagError::InvalidFormat);
}

#[test]
fn parse_round_trips_to_string() {
    for s in ["abc", "abc:1.2.3", "a-b_c.d:v1-rc.2"] {
        let t = Tag::from_str(s).unwrap();
        let back = Tag::from_str(&t.to_string()).unwrap();
        assert_eq!(back, t);
        assert_eq!(t.to_string(), s);
    }
}

#[test]
fn equality_is_structural() {
    let a = Tag::new("n".to_string(), Some("1".to_string())).unwrap();
    let b = Tag::from_str("N:1").unwrap();
    assert_eq!(a, b);
    let c = Tag::new("n".to_string(), None).unwrap();
    assert_ne!(a, c);
}

#[test]
fn ordering_names_decide() {
    let a = Tag::new("a".to_string(), None).unwrap();
    let b = Tag::new("b".to_string(), None).unwrap();
    assert!(a < b);
    assert!(b > a);
}

#[test]
fn ordering_versions_decide_for_equal_names() {
    let v1 = Tag::new("a".to_string(), Some("1".to_string())).unwrap();
    let v2 = Tag::new("a".to_string(), Some("2".to_string())).unwrap();
    assert!(v1 < v2);
}

#[test]
fn ordering_versioned_above_unversioned() {
    let versioned = Tag::new("a".to_string(), Some("1".to_string())).unwrap();
    let latest = Tag::new("a".to_string(), None).unwrap();
    assert!(versioned > latest);
    assert!(latest < versioned);
}

#[test]
fn ordering_unversioned_pair_incomparable() {
    let a = Tag::new("a".to_string(), None).unwrap();
    let b = Tag::new("a".to_string(), None).unwrap();
    assert_eq!(a.partial_cmp(&b), None);
    assert!(!(a < b));
    assert!(!(a > b));
    assert_eq!(a, b);
}

#[test]
fn serialize_round_trip() {
    for s in ["abc", "abc:1.2.3", "x", "a-b_c.d:v1-rc.2"] {
        let t = Tag::from_str(s).unwrap();
        let bytes = t.serialize();
        let back = Tag::deserialize(&bytes).unwrap();
        assert_eq!(back, t);
    }
}

#[test]
fn deserialize_rejects_truncated() {
    let t = Tag::from_str("abc:def").unwrap();
    let bytes = t.serialize();
    for cut in 0..bytes.len() {
        let r = Tag::deserialize(&bytes[..cut]);
        assert_eq!(r.unwrap_err(), DecodeError::Truncated);
    }
}

#[test]
fn deserialize_rejects_trailing_bytes() {
    let t = Tag::from_str("abc").unwrap();
    let mut bytes = t.serialize();
    bytes.push(7);
    assert_eq!(
        Tag::deserialize(&bytes).unwrap_err(),
        DecodeError::TrailingBytes
    );
}

#[test]
fn deserialize_rejects_bad_marker() {
    let t = Tag::from_str("abc").unwrap();
    let mut bytes = t.serialize();
    let last = bytes.len() - 1;
    bytes[last] = 2;
    assert_eq!(
        Tag::deserialize(&bytes).unwrap_err(),
        DecodeError::BadVersionMarker
    );
}

#[test]
fn deserialize_rejects_invalid_fragment() {
    let t = Tag::from_str("abc").unwrap();
    let mut bytes = t.serialize();
    bytes[1] = b'!';
    assert_eq!(
        Tag::deserialize(&bytes).unwrap_err(),
        DecodeError::InvalidFragment
    );
}

#[test]
fn hash_consistent_with_equality() {
    let a = Tag::from_str("model:v1").unwrap();
    let b = Tag::new("Model".to_string(), Some("V1".to_string())).unwrap();
    assert_eq!(a, b);
    assert_eq!(a.hash_value(), b.hash_value());
    let c = Tag::from_str("model:v2").unwrap();
    assert_ne!(a.hash_value(), c.hash_value());
}

#[test]
fn path_projections() {
    let t = Tag::from_str("model:v1").unwrap();
    assert_eq!(t.path(), "model/v1");
    assert_eq!(t.latest_path(), "model/latest");
    let bare = Tag::from_str("model").unwrap();
    assert_eq!(bare.path(), "model");
    assert_eq!(bare.latest_path(), "model/latest");
}

#[test]
fn setters_revalidate() {
    let mut t = Tag::from_str("model:v1").unwrap();
    t.set_name("Other".to_string()).unwrap();
    assert_eq!(t.name().as_str(), "other");
    assert_eq!(
        t.set_name("-bad".to_string()).unwrap_err(),
        TagError::InvalidFormat
    );
    assert_eq!(t.name().as_str(), "other");
    t.set_version(Some("V2".to_string())).unwrap();
    assert_eq!(t.version().as_deref(), Some("v2"));
    t.set_version(None).unwrap();
    assert!(t.version().is_none());
}

#[test]
fn from_taglike_accepts_tag_and_string() {
    let t = Tag::from_str("model:v1").unwrap();
    let same = Tag::from_taglike(TagLike::Tag(t.clone())).unwrap();
    assert_eq!(same, t);
    let parsed = Tag::from_taglike(TagLike::Str("model:v1".to_string())).unwrap();
    assert_eq!(parsed, t);
    let bad = Tag::from_taglike(TagLike::Str("a:b:c".to_string()));
    assert_eq!(bad.unwrap_err(), TagError::MalformedTag);
}

#[test]
fn repr_shows_both_fields() {
    let t = Tag::from_str("model:v1").unwrap();
    assert_eq!(t.repr(), "Tag(name=model, version=v1)");
    let bare = Tag::from_str("model").unwrap();
    assert_eq!(bare.repr(), "Tag(name=model)");
}

#[test]
fn error_messages_name_the_rule() {
    assert!(TagError::TooLong.message().contains("63"));
    assert!(TagError::InvalidFormat.message().contains("alphanumeric"));
    assert!(TagError::MalformedTag.message().contains("name:version"));
}
