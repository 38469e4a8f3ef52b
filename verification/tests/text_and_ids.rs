use jj_testkit::ids::CommitId;
use jj_testkit::text::contains_text;
use jj_testkit::text::decimal_text;

#[test]
fn decimal_matches_display() {
    for n in [0u128, 1, 9, 10, 42, 99, 100, 4_294_967_295, u128::MAX] {
        assert_eq!(decimal_text(n), n.to_string());
    }
}

#[test]
fn decimal_of_known_number() {
    assert_eq!(decimal_text(1_700_000_000_123_456_789), "1700000000123456789");
}

#[test]
fn contains_finds_substrings() {
    assert!(contains_text("mod a;\nmod b;\n", "mod b;"));
    assert!(contains_text("abc", ""));
    assert!(contains_text("", ""));
    assert!(contains_text("abc", "abc"));
    assert!(!contains_text("abc", "abcd"));
    assert!(!contains_text("abc", "ac"));
    assert!(contains_text("grüße aus köln", "aus kö"));
}

#[test]
fn hex_is_lower_case() {
    let id = CommitId::new(vec![0xde, 0xad, 0xbe, 0xef, 0x01, 0x23]);
    assert_eq!(id.hex(), "deadbeef0123");
    assert_eq!(CommitId::new(vec![]).hex(), "");
    assert_eq!(CommitId::new(vec![0, 255]).hex(), "00ff");
}

#[test]
fn hex_reads_both_cases() {
    assert_eq!(CommitId::from_hex("abcd").as_bytes(), &[0xab, 0xcd]);
    assert_eq!(CommitId::from_hex("ABcd").as_bytes(), &[0xab, 0xcd]);
    assert_eq!(CommitId::from_hex("").as_bytes(), &[] as &[u8]);
}

#[test]
fn hex_round_trip() {
    assert_eq!(CommitId::from_hex("00ff7f80").hex(), "00ff7f80");
    let all = CommitId::new((0..=255).collect());
    assert_eq!(all.hex().len(), 512);
    assert!(all.hex().starts_with("000102"));
    assert!(all.hex().ends_with("fdfeff"));
}

#[test]
fn ids_compare_by_bytes() {
    let a = CommitId::new(vec![1, 2]);
    assert!(a == CommitId::new(vec![1, 2]));
    assert!(a != CommitId::new(vec![1, 2, 3]));
    assert!(a != CommitId::new(vec![1, 3]));
    assert_eq!(a.clone(), a);
}
