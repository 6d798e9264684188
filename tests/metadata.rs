use bloog::metadata::{decode_metadata, encode_metadata, metadata_bytes, metadata_from_bytes, Date, IsPublished, PostMetadata};
use bloog::error::StoreError;

fn fields(m: &PostMetadata) -> (Date, String, bool) {
    match m {
        PostMetadata::V1 { date, title, published } => (*date, title.clone(), published.0),
    }
}

#[test]
fn test_ser_der() {
    let p = PostMetadata::V1 {
        date: Date::from_ymd(2024, 1, 2).unwrap(),
        title: "fizz".to_string(),
        published: IsPublished(false),
    };
    let b = metadata_bytes(&p);
    assert_eq!(b.len(), 18);
    assert_eq!(b, vec![0, 10, 50, 48, 50, 52, 45, 48, 49, 45, 48, 50, 4, 102, 105, 122, 122, 0]);
    let back = metadata_from_bytes(b.as_slice()).ok().unwrap();
    assert_eq!(fields(&p), fields(&back));
}

#[test]
fn token_round_trip() {
    for (y, m, d, title, published) in [
        (2020, 1, 1, "My first post", true),
        (1999, 12, 31, "", false),
        (2024, 2, 29, "ünïcödé & <tags> / slashes?", true),
        (-5, 3, 4, "before the era", false),
        (12345, 6, 7, "far future", true),
    ] {
        let meta = PostMetadata::V1 {
            date: Date::from_ymd(y, m, d).unwrap(),
            title: title.to_string(),
            published: IsPublished(published),
        };
        let token = encode_metadata(&meta);
        assert!(token.chars().all(|c| c.is_ascii_alphanumeric() || c == '-' || c == '_'));
        let back = decode_metadata(&token).ok().unwrap();
        assert_eq!(fields(&back), fields(&meta));
    }
}

#[test]
fn bad_tokens_are_reported() {
    assert!(matches!(decode_metadata("!!!"), Err(StoreError::CorruptMetadata)));
    assert!(matches!(decode_metadata(""), Err(StoreError::CorruptMetadata)));
    assert!(matches!(decode_metadata("AQ"), Err(StoreError::CorruptMetadata)));
    // A record tagged with version 1: tag, then an otherwise well-formed body.
    assert!(matches!(
        metadata_from_bytes(&[1, 10, 50, 48, 50, 52, 45, 48, 49, 45, 48, 50, 0, 0]),
        Err(StoreError::UnknownMetadataVersion { version: 1 })
    ));
    assert!(matches!(metadata_from_bytes(&[0, 3, 97, 98, 99, 0, 0]), Err(StoreError::CorruptMetadata)));
}

#[test]
fn dates_are_checked() {
    assert!(Date::from_ymd(2023, 2, 29).is_none());
    assert!(Date::from_ymd(2000, 2, 29).is_some());
    assert!(Date::from_ymd(1900, 2, 29).is_none());
    assert!(Date::from_ymd(2020, 13, 1).is_none());
    assert!(Date::from_ymd(2020, 4, 31).is_none());
    assert!(Date::from_ymd(262143, 1, 1).is_none());
    assert_eq!(Date::from_ymd(2020, 1, 1), Some(Date { year: 2020, month: 1, day: 1 }));
}

#[test]
fn is_published_converts_to_bool() {
    let b: bool = IsPublished(true).into();
    assert!(b);
    let b: bool = IsPublished(false).into();
    assert!(!b);
}
