use vault_core::{default_password_length, generate_password};

const SYMBOLS: &str = "!@#$%^&*()_+-=[]{}|;:,.<>?";

fn in_full_set(c: char) -> bool {
    c.is_ascii_lowercase() || c.is_ascii_uppercase() || c.is_ascii_digit() || SYMBOLS.contains(c)
}

#[test]
fn all_classes_length_ten() {
    for _ in 0..200 {
        let p = generate_password(10, true, true, true);
        assert_eq!(p.chars().count(), 10);
        assert!(p.chars().any(|c| c.is_ascii_uppercase()));
        assert!(p.chars().any(|c| c.is_ascii_digit()));
        assert!(p.chars().any(|c| SYMBOLS.contains(c)));
        assert!(p.chars().all(in_full_set));
    }
}

#[test]
fn budget_smaller_than_classes() {
    for _ in 0..200 {
        let p = generate_password(2, true, true, false);
        assert_eq!(p.chars().count(), 2);
        assert!(p.chars().any(|c| c.is_ascii_uppercase()));
        assert!(p.chars().any(|c| c.is_ascii_digit()));
        assert!(!p.chars().any(|c| SYMBOLS.contains(c)));
    }
}

#[test]
fn budget_of_one_with_three_classes() {
    for _ in 0..100 {
        let p = generate_password(1, true, true, true);
        assert_eq!(p.chars().count(), 1);
        assert!(p.chars().all(|c| c.is_ascii_uppercase()));
    }
}

#[test]
fn no_flags_gives_lowercase() {
    for _ in 0..100 {
        let p = generate_password(default_password_length(), false, false, false);
        assert_eq!(p.chars().count(), 12);
        assert!(p.chars().all(|c| c.is_ascii_lowercase()));
    }
}

#[test]
fn zero_length_is_empty() {
    assert_eq!(generate_password(0, true, true, true), "");
}

#[test]
fn largest_length() {
    let p = generate_password(255, false, true, true);
    assert_eq!(p.chars().count(), 255);
    assert!(!p.chars().any(|c| c.is_ascii_uppercase()));
    assert!(p.chars().any(|c| c.is_ascii_digit()));
    assert!(p.chars().any(|c| SYMBOLS.contains(c)));
}

#[test]
fn default_length_is_twelve() {
    assert_eq!(default_password_length(), 12);
}

#[test]
fn output_is_shuffled() {
    // With the guaranteed upper-case letter always first, every one of these
    // would start with an upper-case letter.
    let starts_upper = (0..200)
        .filter(|_| generate_password(10, true, false, false).chars().next().unwrap().is_ascii_uppercase())
        .count();
    assert!(starts_upper < 200);
}
