use mosaic::api_error::ApiError;
use mosaic::auth::{bearer_token, AuthConfig, AuthConfigError, Role, TokenEntry};

fn config() -> AuthConfig {
    AuthConfig::from_entries(vec![
        TokenEntry {
            token: "author-secret".to_string(),
            id: "alice".to_string(),
            roles: vec!["author".to_string()],
        },
        TokenEntry {
            token: "mod-secret".to_string(),
            id: "max".to_string(),
            roles: vec!["author".to_string(), "moderator".to_string()],
        },
    ])
    .unwrap()
}

#[test]
fn lookup_resolves_tokens_and_roles() {
    let cfg = config();
    let alice = cfg.lookup("author-secret").unwrap();
    assert_eq!(alice.id(), "alice");
    assert!(alice.has_role(Role::Author));
    assert!(!alice.has_role(Role::Moderator));

    let max = cfg.lookup("mod-secret").unwrap();
    assert!(max.has_role(Role::Moderator));

    assert!(cfg.lookup("wrong").is_none());
}

#[test]
fn unknown_role_is_rejected() {
    let err = AuthConfig::from_entries(vec![TokenEntry {
        token: "t".to_string(),
        id: "x".to_string(),
        roles: vec!["wizard".to_string()],
    }]);
    assert!(err.is_err());
}

#[test]
fn duplicate_token_is_rejected() {
    let err = AuthConfig::from_entries(vec![
        TokenEntry { token: "same".to_string(), id: "a".to_string(), roles: vec![] },
        TokenEntry { token: "same".to_string(), id: "b".to_string(), roles: vec![] },
    ]);
    assert!(err.is_err());
}

#[test]
fn empty_config_authenticates_nobody() {
    assert!(AuthConfig::empty().lookup("anything").is_none());
}

#[test]
fn refusals_name_the_cause() {
    let err = AuthConfig::from_entries(vec![
        TokenEntry { token: "a".to_string(), id: "p".to_string(), roles: vec!["author".to_string()] },
        TokenEntry { token: "b".to_string(), id: "x".to_string(), roles: vec!["wizard".to_string()] },
    ]);
    match err {
        Err(AuthConfigError::UnknownRole { role, principal }) => {
            assert_eq!(role, "wizard");
            assert_eq!(principal, "x");
        }
        _ => panic!("expected an unknown role"),
    }
    let err = AuthConfig::from_entries(vec![
        TokenEntry { token: "same".to_string(), id: "a".to_string(), roles: vec![] },
        TokenEntry { token: "same".to_string(), id: "b".to_string(), roles: vec!["nope".to_string()] },
    ]);
    // The second entry's unknown role is found before its repeated token.
    assert!(matches!(err, Err(AuthConfigError::UnknownRole { .. })));
}

#[test]
fn roles_are_sorted_and_deduplicated() {
    let cfg = AuthConfig::from_entries(vec![TokenEntry {
        token: "t".to_string(),
        id: "m".to_string(),
        roles: vec!["moderator".to_string(), "author".to_string(), "moderator".to_string()],
    }])
    .unwrap();
    assert_eq!(cfg.len(), 1);
    assert!(!cfg.is_empty());
    let p = cfg.lookup("t").unwrap();
    assert_eq!(p.role_slugs(), vec!["author", "moderator"]);
    assert!(p.require(Role::Moderator).is_ok());
}

#[test]
fn require_refuses_with_a_403_naming_the_role() {
    let cfg = config();
    let alice = cfg.lookup("author-secret").unwrap();
    match alice.require(Role::Moderator) {
        Err(ApiError::Forbidden(m)) => assert_eq!(m, "this action requires the 'moderator' role"),
        other => panic!("expected forbidden, got {other:?}"),
    }
}

#[test]
fn role_slugs_round_trip() {
    for r in [Role::Author, Role::Moderator] {
        assert_eq!(Role::parse(r.as_str()), Some(r));
    }
    assert_eq!(Role::parse("wizard"), None);
}

#[test]
fn bearer_token_takes_what_follows_the_scheme() {
    assert_eq!(bearer_token("Bearer abc").as_deref(), Some("abc"));
    assert_eq!(bearer_token("bEaReR  tok-1 ").as_deref(), Some("tok-1"));
    assert_eq!(bearer_token("Bearer a b").as_deref(), Some("a b"));
    assert_eq!(bearer_token("Bearer ").as_deref(), Some(""));
}

#[test]
fn bearer_token_refuses_other_forms() {
    assert_eq!(bearer_token("Bearer"), None);
    assert_eq!(bearer_token("Basic abc"), None);
    assert_eq!(bearer_token("Bearerx abc"), None);
    assert_eq!(bearer_token(" Bearer abc"), None);
    assert_eq!(bearer_token(""), None);
}
