use luke_desktop::auth::AuthService;

#[test]
fn test_register_and_login() {
    let mut auth = AuthService::new();

    // Test registration
    let username = "testuser".to_string();
    let password = "testpass123".to_string();

    let user = auth.register(username.clone(), password.clone()).unwrap();
    assert_eq!(user.username, username);

    // Test login
    let session = auth.login(username, password).unwrap();
    assert!(!session.token.is_empty());

    // Test session validation
    let validated_user = auth.validate_session(session.token.clone()).unwrap();
    assert_eq!(validated_user.id, user.id);

    // Test logout
    auth.logout(session.token).unwrap();
}

#[test]
fn register_rejects_taken_username() {
    let mut auth = AuthService::new();
    auth.register("alice".to_string(), "first-password".to_string()).unwrap();
    let err = auth.register("alice".to_string(), "second-password".to_string());
    assert_eq!(err.unwrap_err(), "Username already exists".to_string());
}

#[test]
fn login_rejects_wrong_password() {
    let mut auth = AuthService::new();
    auth.register("bob".to_string(), "right-password".to_string()).unwrap();
    let err = auth.login("bob".to_string(), "wrong-password".to_string());
    assert!(err.is_err());
}

#[test]
fn login_rejects_unknown_username() {
    let mut auth = AuthService::new();
    let err = auth.login("nobody".to_string(), "password".to_string());
    assert!(err.is_err());
}

#[test]
fn login_failures_do_not_reveal_the_username() {
    let mut auth = AuthService::new();
    auth.register("frank".to_string(), "pw-frank-1".to_string()).unwrap();
    let unknown = auth.login("nobody".to_string(), "pw-frank-1".to_string()).unwrap_err();
    let wrong = auth.login("frank".to_string(), "not-the-password".to_string()).unwrap_err();
    // The identical answer for both causes: the response does not say
    // whether the username exists.
    assert_eq!(unknown, wrong);
    assert_eq!(unknown, "Invalid username or password".to_string());
}

#[test]
fn login_notes_last_login() {
    let mut auth = AuthService::new();
    let user = auth.register("carol".to_string(), "pw-carol-1".to_string()).unwrap();
    assert!(user.last_login.is_none());
    auth.login("carol".to_string(), "pw-carol-1".to_string()).unwrap();
    let validated = {
        let session = auth.login("carol".to_string(), "pw-carol-1".to_string()).unwrap();
        auth.validate_session(session.token).unwrap()
    };
    assert!(validated.last_login.is_some());
}

#[test]
fn expired_session_is_rejected() {
    let mut auth = AuthService::new();
    auth.register("dave".to_string(), "pw-dave-1".to_string()).unwrap();
    let session = auth.login("dave".to_string(), "pw-dave-1".to_string()).unwrap();
    // A moment after the expiry instant the session no longer validates.
    let err = auth.validate_session_at(&session.token, session.expires_at + 1);
    assert_eq!(err.unwrap_err(), "Session expired".to_string());
    // At any instant up to the expiry it still validates.
    let ok = auth.validate_session_at(&session.token, session.expires_at);
    assert!(ok.is_ok());
}

#[test]
fn logout_closes_the_session() {
    let mut auth = AuthService::new();
    auth.register("erin".to_string(), "pw-erin-1".to_string()).unwrap();
    let session = auth.login("erin".to_string(), "pw-erin-1".to_string()).unwrap();
    auth.logout(session.token.clone()).unwrap();
    assert!(auth.validate_session(session.token.clone()).is_err());
    // Logging out an already closed token still succeeds.
    assert!(auth.logout(session.token).is_ok());
}
