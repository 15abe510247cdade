use mrrper::digest::{classify, fingerprint, ChangeKind, DIGEST_INPUT_LIMIT};

#[test]
fn fingerprint_of_known_contents() {
    assert_eq!(
        fingerprint("old"),
        Some(
            "\u{2e0}\u{6b}\u{57}\u{36}\u{fffd}\u{fffd}\u{7e}\u{54}\u{fffd}\u{7b}\u{56}\u{1e}\u{fffd}\u{fffd}\u{39}\u{5e}\u{77}\u{4c}\u{51}\u{7a}\u{7d}\u{fffd}\u{a}\u{54}\u{36}\u{fffd}\u{12}\u{63}\u{fffd}\u{fffd}\u{fffd}"
                .to_string()
        )
    );
    assert_eq!(
        fingerprint("new"),
        Some(
            "\u{11}\u{50}\u{7a}\u{e}\u{2f}\u{5e}\u{69}\u{fffd}\u{7e4}\u{a}\u{62}\u{fffd}\u{fffd}\u{7b}\u{6e}\u{fffd}\u{7e}\u{6b}\u{345}\u{fffd}\u{7c}\u{fffd}\u{fffd}\u{31}\u{fffd}\u{6f}\u{fffd}\u{21}\u{fffd}\u{37}"
                .to_string()
        )
    );
    assert_eq!(
        fingerprint(""),
        Some(
            "\u{fffd}\u{fffd}\u{42}\u{fffd}\u{fffd}\u{1c}\u{14}\u{fffd}\u{fffd}\u{fffd}\u{219}\u{6f}\u{fffd}\u{24}\u{27}\u{fffd}\u{41}\u{fffd}\u{64}\u{fffd}\u{fffd}\u{4c}\u{fffd}\u{fffd}\u{fffd}\u{1b}\u{78}\u{52}\u{fffd}\u{55}"
                .to_string()
        )
    );
}

#[test]
fn fingerprint_depends_on_content_only() {
    assert_eq!(fingerprint("Zmiany w planie"), fingerprint("Zmiany w planie"));
    assert_ne!(fingerprint("Zmiany w planie"), fingerprint("Zmiany w planie."));
    assert_ne!(fingerprint("old"), Some("old".to_string()));
}

#[test]
fn digest_limit_is_the_largest_length_in_bits_that_fits() {
    assert_eq!(DIGEST_INPUT_LIMIT, u64::MAX / 8);
}

#[test]
fn classification_by_stored_fingerprint() {
    let print = "abc".to_string();
    assert_eq!(classify(&None, &print), ChangeKind::New);
    assert_eq!(classify(&Some("abd".to_string()), &print), ChangeKind::Changed);
    assert_eq!(classify(&Some("".to_string()), &print), ChangeKind::Changed);
    assert_eq!(classify(&Some("abc".to_string()), &print), ChangeKind::Unchanged);
    assert!(ChangeKind::New.fresh());
    assert!(ChangeKind::Changed.fresh());
    assert!(!ChangeKind::Unchanged.fresh());
}
