use vault_core::{hash_password, verify_password};

#[test]
fn hash_then_verify() {
    let h = hash_password("correct horse").unwrap();
    assert!(verify_password("correct horse", &h));
    assert!(!verify_password("correct horsf", &h));
    assert!(h.starts_with("$argon2"));
    assert_ne!(h, "correct horse");
}

#[test]
fn two_hashes_differ_and_both_verify() {
    let a = hash_password("pw1").unwrap();
    let b = hash_password("pw1").unwrap();
    assert_ne!(a, b);
    assert!(verify_password("pw1", &a));
    assert!(verify_password("pw1", &b));
}

#[test]
fn corrupt_hash_does_not_verify() {
    assert!(!verify_password("pw1", "not a hash"));
    assert!(!verify_password("pw1", ""));
}

#[test]
fn empty_password_round_trip() {
    let h = hash_password("").unwrap();
    assert!(verify_password("", &h));
    assert!(!verify_password(" ", &h));
}
