use cargo_registry::user::{check_state, check_status, random_token, EncodableUser, LoginError, User};

fn user() -> User {
    User {
        id: 10_000,
        gh_login: "foo".to_string(),
        name: Some("Foo Bar".to_string()),
        email: None,
        avatar: Some("https://example.com/foo.png".to_string()),
        gh_access_token: "some random token".to_string(),
        api_token: "some random api token".to_string(),
    }
}

#[test]
fn encodable_drops_the_tokens() {
    assert_eq!(
        user().encodable(),
        EncodableUser {
            id: 10_000,
            login: "foo".to_string(),
            email: None,
            name: Some("Foo Bar".to_string()),
            avatar: Some("https://example.com/foo.png".to_string()),
        }
    );
}

#[test]
fn encodable_keeps_an_email_address() {
    let mut u = user();
    u.email = Some("foo@example.com".to_string());
    u.name = None;
    let public = u.encodable();
    assert_eq!(public.email, Some("foo@example.com".to_string()));
    assert_eq!(public.name, None);
}

#[test]
fn an_api_token_has_thirty_two_letters_and_digits() {
    let token = User::new_api_token();
    assert_eq!(token.chars().count(), 32);
    assert!(token.chars().all(|c| c.is_ascii_alphanumeric()));
}

#[test]
fn api_tokens_differ() {
    let tokens: Vec<String> = (0..8).map(|_| User::new_api_token()).collect();
    for i in 0..tokens.len() {
        for j in 0..i {
            assert_ne!(tokens[i], tokens[j]);
        }
    }
}

#[test]
fn a_token_has_the_length_asked_for() {
    assert_eq!(random_token(0), "");
    for len in [1, 16, 33, 200] {
        let token = random_token(len);
        assert_eq!(token.len(), len);
        assert!(token.chars().all(|c| c.is_ascii_alphanumeric()));
    }
}

#[test]
fn users_compare_by_their_fields() {
    assert_eq!(user(), user().clone());
    let mut other = user();
    other.api_token = "another".to_string();
    assert_ne!(user(), other);
}

#[test]
fn the_state_of_the_session_must_come_back() {
    assert_eq!(check_state("abc", Some("abc")), Ok(()));
    assert_eq!(check_state("", Some("")), Ok(()));
    assert_eq!(check_state("abc", Some("abd")), Err(LoginError::InvalidState));
    assert_eq!(check_state("abc", Some("ab")), Err(LoginError::InvalidState));
    assert_eq!(check_state("abc", None), Err(LoginError::InvalidState));
    assert_eq!(check_state("", None), Err(LoginError::InvalidState));
}

#[test]
fn only_status_200_is_accepted() {
    assert_eq!(check_status(200), Ok(()));
    assert_eq!(check_status(201), Err(LoginError::Refused { status: 201 }));
    assert_eq!(check_status(404), Err(LoginError::Refused { status: 404 }));
    assert_eq!(check_status(0), Err(LoginError::Refused { status: 0 }));
}
