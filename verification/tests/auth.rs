use org_roamers::auth::{
    build_user_store, check_session, login, require_auth, LoginRequest, UserStore,
    SERVICE_UNAVAILABLE, UNAUTHORIZED,
};
use org_roamers::config::{AuthConfig, Config, User};

fn user(name: &str, pw: &str) -> User {
    User { username: name.into(), password: pw.into() }
}

#[test]
fn stored_users_verify_with_their_password() {
    let store = UserStore::from_users(vec![user("ann", "secret"), user("bob", "hunter2")]).unwrap();
    assert_eq!(store.user_count(), 2);
    assert!(store.verify("ann", "secret"));
    assert!(store.verify("bob", "hunter2"));
    assert!(!store.verify("ann", "hunter2"));
    assert!(!store.verify("carl", "secret"));
    assert!(store.user_exists("bob"));
    assert!(!store.user_exists("carl"));
}

#[test]
fn a_later_user_of_the_same_name_replaces_the_earlier() {
    let store = UserStore::from_users(vec![user("ann", "old"), user("ann", "new")]).unwrap();
    assert_eq!(store.user_count(), 1);
    assert!(store.verify("ann", "new"));
    assert!(!store.verify("ann", "old"));
}

#[test]
fn store_is_built_only_when_enabled() {
    let mut conf = Config::default();
    assert!(build_user_store(&conf).unwrap().is_none());
    let mut auth = AuthConfig::default();
    auth.users.push(user("ann", "pw"));
    conf.authentication = Some(auth);
    assert!(build_user_store(&conf).unwrap().is_none());
    if let Some(a) = conf.authentication.as_mut() {
        a.enabled = true;
    }
    let store = build_user_store(&conf).unwrap().unwrap();
    assert!(store.verify("ann", "pw"));
}

#[test]
fn login_answers() {
    let store = UserStore::from_users(vec![user("ann", "pw")]).unwrap();
    let good = LoginRequest { username: "ann".into(), password: "pw".into() };
    let bad = LoginRequest { username: "ann".into(), password: "no".into() };
    let r = login(Some(&store), &good).unwrap();
    assert!(r.success);
    assert_eq!(r.username, "ann");
    assert_eq!(login(Some(&store), &bad), Err(UNAUTHORIZED));
    assert_eq!(login(None, &good), Err(SERVICE_UNAVAILABLE));
}

#[test]
fn sessions() {
    let s = check_session(Some("ann".into()));
    assert!(s.authenticated);
    assert_eq!(s.username, Some("ann".to_string()));
    assert!(!check_session(None).authenticated);
    assert_eq!(require_auth(&None), Err(UNAUTHORIZED));
    assert_eq!(require_auth(&Some("x".into())), Ok(()));
}
