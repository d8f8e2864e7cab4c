use heel::windows::profile::{profile_name, slug, PROFILE_HASH_HEX_LEN, PROFILE_MAX_LEN};
use heel::Error;

#[test]
fn profile_name_is_stable_and_sanitized() {
    let first = profile_name("Eureka Desktop", "abc/DEF:123").expect("profile name");
    let second = profile_name("Eureka Desktop", "abc/DEF:123").expect("profile name");

    assert_eq!(first, second);
    assert!(first.as_str().starts_with("heel.eureka-desktop."));
    assert!(first.as_str().len() <= 64);
    assert!(first
        .as_str()
        .chars()
        .all(|ch| ch.is_ascii_lowercase() || ch.is_ascii_digit() || ch == '-' || ch == '.'));
}

#[test]
fn profile_name_uses_128_bit_hash_suffix() {
    let name = profile_name("Eureka Desktop", "abc/DEF:123").expect("profile name");
    let suffix = name.as_str().rsplit('.').next().expect("suffix");

    assert_eq!(suffix.len(), PROFILE_HASH_HEX_LEN);
    assert!(suffix.chars().all(|ch| ch.is_ascii_hexdigit()));
}

#[test]
fn profile_name_changes_with_seed() {
    let first = profile_name("Eureka Desktop", "seed-a").expect("profile name");
    let second = profile_name("Eureka Desktop", "seed-b").expect("profile name");

    assert_ne!(first, second);
}

#[test]
fn profile_name_truncates_long_app_id_to_limit() {
    let name = profile_name(
        "Eureka Desktop With A Very Long Application Identifier",
        "seed",
    )
    .expect("profile name");

    assert_eq!(name.as_str().len(), PROFILE_MAX_LEN);
    assert!(name.as_str().starts_with("heel."));
    assert!(name.as_str().rsplit('.').next().expect("suffix").len() == PROFILE_HASH_HEX_LEN);
}

#[test]
fn profile_name_rejects_empty_slug() {
    let err = profile_name("   ", "seed").expect_err("empty app id should be rejected");

    assert!(err
        .message()
        .contains("AppContainer profile app id cannot be empty"));
}

#[test]
fn profile_name_suffix_is_the_sha256_prefix() {
    let name = profile_name("a", "b").expect("profile name");
    assert_eq!(name.as_str(), "heel.a.59b271ae1bbcb1d31d41929817f4b16f");
}

#[test]
fn slug_collapses_runs_and_trims_dashes() {
    assert_eq!(slug("--Hello,  World!!").unwrap(), "hello-world");
    assert_eq!(slug("abc/DEF:123").unwrap(), "abc-def-123");
    assert!(matches!(slug("***"), Err(Error::ConfigError(_))));
}
