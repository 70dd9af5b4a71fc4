use vault_core::{AppError, AppState, NewPassword, Password, PasswordResponse};

fn entry(owner: u128, key: &str) -> NewPassword {
    NewPassword { key: key.to_string(), value: "v".to_string(), user_id: owner, notes: None }
}

#[test]
fn end_to_end() {
    let mut state = AppState::new("jwt-secret".to_string());
    let alice = state.register("alice".to_string(), "pw1".to_string()).unwrap();
    assert_eq!(alice.username, "alice");
    assert!(matches!(
        state.register("alice".to_string(), "other".to_string()),
        Err(AppError::Conflict(_))
    ));
    assert_eq!(state.users.len(), 1);
    let token = state.login("alice".to_string(), "pw1".to_string()).unwrap();
    let created = state
        .create_password(token.clone(), "email".to_string(), "secret".to_string(), None)
        .unwrap();
    assert_eq!(created.key, "email");
    assert_eq!(created.user_id, alice.id);
    let all = state.get_all_passwords(token.clone()).unwrap();
    assert_eq!(all.len(), 1);
    assert_eq!(all[0].key, "email");
    assert_eq!(all[0].value, "secret");
    let deleted = state.delete_password(token.clone(), "email".to_string()).unwrap();
    assert_eq!(deleted, created);
    assert_eq!(state.delete_password(token.clone(), "email".to_string()), Err(AppError::NotFound));
    assert!(state.get_all_passwords(token).unwrap().is_empty());
}

#[test]
fn login_failures_are_vague() {
    let mut state = AppState::new("s".to_string());
    state.register("bob".to_string(), "right".to_string()).unwrap();
    assert_eq!(state.login("bob".to_string(), "wrong".to_string()), Err(AppError::InvalidCredentials));
    assert_eq!(state.login("carol".to_string(), "right".to_string()), Err(AppError::InvalidCredentials));
    assert_eq!(state.login("Bob".to_string(), "right".to_string()), Err(AppError::InvalidCredentials));
}

#[test]
fn stored_hash_is_not_the_password() {
    let mut state = AppState::new("s".to_string());
    state.register("bob".to_string(), "right".to_string()).unwrap();
    assert_ne!(state.users[0].hashed_password, "right");
}

#[test]
fn vault_isolation() {
    let mut state = AppState::new("s".to_string());
    state.register("a".to_string(), "pa".to_string()).unwrap();
    state.register("b".to_string(), "pb".to_string()).unwrap();
    let ta = state.login("a".to_string(), "pa".to_string()).unwrap();
    let tb = state.login("b".to_string(), "pb".to_string()).unwrap();
    state.create_password(ta.clone(), "bank".to_string(), "1234".to_string(), Some("n".to_string())).unwrap();
    assert!(state.get_all_passwords(tb.clone()).unwrap().is_empty());
    assert_eq!(state.delete_password(tb, "bank".to_string()), Err(AppError::NotFound));
    assert_eq!(state.get_all_passwords(ta).unwrap().len(), 1);
}

#[test]
fn bad_token_changes_nothing() {
    let mut state = AppState::new("s".to_string());
    assert_eq!(
        state.create_password("nope".to_string(), "k".to_string(), "v".to_string(), None),
        Err(AppError::InvalidToken)
    );
    assert!(state.passwords.is_empty());
    assert_eq!(state.get_all_passwords("nope".to_string()), Err(AppError::InvalidToken));
    assert_eq!(state.delete_password("nope".to_string(), "k".to_string()), Err(AppError::InvalidToken));
}

#[test]
fn duplicate_keys_are_not_deleted() {
    let mut state = AppState::new("s".to_string());
    state.insert_password(entry(1, "k"), 10, 5).unwrap();
    state.insert_password(entry(1, "k"), 11, 6).unwrap();
    assert_eq!(state.remove_password(1, "k"), Err(AppError::NotFound));
    assert_eq!(state.passwords.len(), 2);
}

#[test]
fn remove_picks_owner_and_key() {
    let mut state = AppState::new("s".to_string());
    state.insert_password(entry(1, "k"), 10, 5).unwrap();
    state.insert_password(entry(2, "k"), 11, 6).unwrap();
    state.insert_password(entry(1, "j"), 12, 7).unwrap();
    let r = state.remove_password(2, "k").unwrap();
    assert_eq!(r.id, 11);
    assert_eq!(state.passwords.len(), 2);
    assert_eq!(state.passwords_of(1).len(), 2);
    assert!(state.passwords_of(2).is_empty());
    assert_eq!(state.remove_password(3, "k"), Err(AppError::NotFound));
}

#[test]
fn insert_sets_both_times() {
    let mut state = AppState::new("s".to_string());
    let r = state.insert_password(entry(7, "k"), 3, 42).unwrap();
    assert_eq!(r.created_at, 42);
    assert_eq!(r.updated_at, 42);
    assert_eq!(state.passwords[0].value, "v");
    assert_eq!(state.find_user("x"), None);
    assert!(!state.id_in_use(7));
}

#[test]
fn response_drops_value() {
    let p = Password {
        id: 1,
        key: "k".to_string(),
        value: "hidden".to_string(),
        created_at: 1,
        updated_at: 2,
        user_id: 3,
        notes: Some("n".to_string()),
    };
    assert_eq!(p.duplicate(), p);
    let r = PasswordResponse::from(p);
    assert_eq!(r.key, "k");
    assert_eq!(r.updated_at, 2);
    assert_eq!(r.notes, Some("n".to_string()));
}

#[test]
fn insert_user_stores_account() {
    let mut state = AppState::new("s".to_string());
    let r = state.insert_user(
        vault_core::NewUser { username: "dana".to_string(), hashed_password: "h".to_string() },
        99,
        1234,
    );
    assert_eq!(r.id, 99);
    assert_eq!(r.username, "dana");
    assert_eq!(r.created_at, 1234);
    assert_eq!(state.users[0].hashed_password, "h");
    assert_eq!(state.find_user("dana"), Some(0));
    assert!(state.id_in_use(99));
    assert!(matches!(
        state.register("dana".to_string(), "x".to_string()),
        Err(AppError::Conflict(_))
    ));
}

#[test]
fn insert_rejects_used_entry_id() {
    let mut state = AppState::new("s".to_string());
    state.insert_password(entry(1, "k"), 10, 5).unwrap();
    assert!(matches!(state.insert_password(entry(2, "j"), 10, 6), Err(AppError::InternalServerError(_))));
    assert_eq!(state.passwords.len(), 1);
    // duplicate key for the same owner is allowed under a fresh identifier
    let r = state.insert_password(entry(1, "k"), 11, 7).unwrap();
    assert_eq!(r.id, 11);
    assert_eq!(state.passwords_of(1).len(), 2);
}

#[test]
fn register_with_outcomes() {
    let mut state = AppState::new("s".to_string());
    let ok = state.register_with("erin".to_string(), Ok("h1".to_string()), 5, 100).unwrap();
    assert_eq!((ok.id, ok.username.as_str(), ok.created_at), (5, "erin", 100));
    assert!(matches!(
        state.register_with("erin".to_string(), Ok("h2".to_string()), 6, 101),
        Err(AppError::Conflict(_))
    ));
    assert_eq!(
        state.register_with("finn".to_string(), Err(AppError::InternalServerError("x".to_string())), 6, 101),
        Err(AppError::InternalServerError("x".to_string()))
    );
    assert!(matches!(
        state.register_with("finn".to_string(), Ok("h3".to_string()), 5, 101),
        Err(AppError::InternalServerError(_))
    ));
    assert_eq!(state.users.len(), 1);
    let r = state.register_with("Erin".to_string(), Ok("h4".to_string()), 7, 102).unwrap();
    assert_eq!(r.username, "Erin");
    assert_eq!(state.users.len(), 2);
}

#[test]
fn login_at_issues_validating_token() {
    let mut state = AppState::new("s".to_string());
    let u = state.register("gail".to_string(), "pw".to_string()).unwrap();
    let t = state.login_at("gail".to_string(), "pw".to_string(), 500).unwrap();
    assert_eq!(vault_core::validate_token(&t, "s", 4100), Ok(u.id));
    assert_eq!(vault_core::validate_token(&t, "s", 4101), Err(AppError::ExpiredToken));
    assert_eq!(state.login_at("gail".to_string(), "no".to_string(), 500), Err(AppError::InvalidCredentials));
    assert!(matches!(
        state.login_at("gail".to_string(), "pw".to_string(), i64::MAX),
        Err(AppError::InternalServerError(_))
    ));
}

#[test]
fn same_password_two_accounts() {
    let mut state = AppState::new("s".to_string());
    state.register("u1".to_string(), "same".to_string()).unwrap();
    state.register("u2".to_string(), "same".to_string()).unwrap();
    assert_ne!(state.users[0].hashed_password, state.users[1].hashed_password);
    assert!(state.login("u1".to_string(), "same".to_string()).is_ok());
    assert!(state.login("u2".to_string(), "same".to_string()).is_ok());
}
