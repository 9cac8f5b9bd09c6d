use hash_finder::{calculate_hash, has_required_zeros};

#[test]
fn test_calculate_hash() {
    let hash = calculate_hash(1);
    assert_eq!(hash.len(), 64);
    assert!(hash.chars().all(|c| c.is_ascii_hexdigit()));
}

#[test]
fn test_has_required_zeros() {
    assert!(has_required_zeros("abc000", 3));
    assert!(!has_required_zeros("abc001", 3));
    assert!(has_required_zeros("000000", 6));
    assert!(!has_required_zeros("000001", 6));
}

#[test]
fn digest_of_known_candidates() {
    assert_eq!(
        calculate_hash(0),
        "5feceb66ffc86f38d952786c6d696c79c2dbc239dd4e91b46729d73a27fb57e9"
    );
    assert_eq!(
        calculate_hash(1),
        "6b86b273ff34fce19d6b804eff5a3f5747ada4eaa22f1d49c01e52ddb7875b4b"
    );
    assert_eq!(
        calculate_hash(10),
        "4a44dc15364204a80fe80e9039455cc1608281820fe2b24f1e5233ade6af1dd5"
    );
    assert_eq!(
        calculate_hash(12345),
        "5994471abb01112afcc18159f6cc74b4f511b99806da59b3caf5a9c173cacfc5"
    );
}

#[test]
fn digest_of_the_largest_candidate() {
    assert_eq!(
        calculate_hash(u64::MAX),
        "2cdb26265b4dc65e3b44d694f121fd6de99b9e4b8ae7f08d84bfa9537635ae43"
    );
}

#[test]
fn digest_is_64_lowercase_hex_digits() {
    for candidate in [0u64, 1, 9, 10, 99, 100, 4163, 1 << 32, u64::MAX - 1, u64::MAX] {
        let hash = calculate_hash(candidate);
        assert_eq!(hash.len(), 64);
        assert!(hash.chars().all(|c| matches!(c, '0'..='9' | 'a'..='f')));
    }
}

#[test]
fn digest_is_deterministic() {
    for candidate in [0u64, 1, 23, 403, 4163, u64::MAX] {
        assert_eq!(calculate_hash(candidate), calculate_hash(candidate));
    }
}

#[test]
fn digests_of_different_candidates_differ() {
    assert_ne!(calculate_hash(1), calculate_hash(2));
    assert_ne!(calculate_hash(1), calculate_hash(10));
}

#[test]
fn first_candidates_with_trailing_zeros() {
    assert!(has_required_zeros(&calculate_hash(23), 1));
    assert!(!has_required_zeros(&calculate_hash(23), 2));
    assert!(has_required_zeros(&calculate_hash(403), 2));
    assert!(!has_required_zeros(&calculate_hash(403), 3));
    assert!(has_required_zeros(&calculate_hash(4163), 3));
    assert!(!has_required_zeros(&calculate_hash(1), 1));
}

#[test]
fn zero_threshold_matches_everything() {
    assert!(has_required_zeros("", 0));
    assert!(has_required_zeros("abc001", 0));
    assert!(has_required_zeros("not a digest", 0));
    assert!(has_required_zeros("\u{e9}t\u{e9}", 0));
    for candidate in 0..50u64 {
        assert!(has_required_zeros(&calculate_hash(candidate), 0));
    }
}

#[test]
fn threshold_longer_than_the_text_fails() {
    assert!(!has_required_zeros("", 1));
    assert!(!has_required_zeros("00", 3));
    assert!(!has_required_zeros("000000", 7));
    assert!(!has_required_zeros("0", usize::MAX));
}

#[test]
fn threshold_counts_trailing_zeros_only() {
    assert!(has_required_zeros("000100", 2));
    assert!(!has_required_zeros("000100", 3));
    assert!(!has_required_zeros("000001", 1));
    assert!(has_required_zeros("1000000", 6));
    assert!(!has_required_zeros("1000000", 7));
}

#[test]
fn threshold_of_the_whole_digest() {
    let zeros = "0".repeat(64);
    assert!(has_required_zeros(&zeros, 64));
    assert!(!has_required_zeros(&zeros, 65));
    let almost = format!("1{}", "0".repeat(63));
    assert!(has_required_zeros(&almost, 63));
    assert!(!has_required_zeros(&almost, 64));
}

#[test]
fn threshold_on_text_outside_ascii() {
    assert!(has_required_zeros("\u{e9}00", 2));
    assert!(!has_required_zeros("\u{e9}00", 3));
    assert!(!has_required_zeros("00\u{e9}", 1));
    assert!(has_required_zeros("\u{1f600}0", 1));
    assert!(!has_required_zeros("\u{1f600}0", 2));
    assert!(!has_required_zeros("\u{ff10}\u{ff10}", 1));
}

#[test]
fn threshold_agrees_with_a_suffix_test() {
    for candidate in 0..500u64 {
        let hash = calculate_hash(candidate);
        for zeros in 0..4usize {
            assert_eq!(
                has_required_zeros(&hash, zeros),
                hash.ends_with(&"0".repeat(zeros))
            );
        }
    }
}
