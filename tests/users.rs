use libqaul::users::{Identity, Qaul, QaulError, User, UserProfile, Users};

fn ident(b: u8) -> Identity {
    Identity(vec![b; 16])
}

#[test]
fn create_lists_and_gets_the_user() {
    let mut users = Users::new(Qaul::new());
    let auth = users.create("secret", ident(1), "tok1".to_string()).unwrap();
    assert_eq!(auth.0, ident(1));
    assert_eq!(auth.1, "tok1");
    assert_eq!(users.list(), vec![UserProfile { id: ident(1) }]);
    assert_eq!(users.get(ident(1)), Ok(UserProfile { id: ident(1) }));
    assert_eq!(users.get(ident(2)), Err(QaulError::UnknownUser));
}

#[test]
fn list_leaves_out_remote_users() {
    let mut q = Qaul::new();
    q.add_user(User::Remote(UserProfile { id: ident(7) }));
    let mut users = Users::new(q);
    users.create("pw", ident(8), "t".to_string()).unwrap();
    assert_eq!(users.list(), vec![UserProfile { id: ident(8) }]);
    assert_eq!(users.get(ident(7)), Ok(UserProfile { id: ident(7) }));
    assert_eq!(users.login(ident(7), "pw", "t2".to_string()), Err(QaulError::UnknownUser));
}

#[test]
fn login_checks_password_and_reuses_session() {
    let mut users = Users::new(Qaul::new());
    let auth = users.create("pw", ident(1), "first".to_string()).unwrap();
    assert_eq!(users.login(ident(1), "wrong", "x".to_string()), Err(QaulError::NotAuthorised));
    assert_eq!(users.login(ident(9), "pw", "x".to_string()), Err(QaulError::UnknownUser));
    let again = users.login(ident(1), "pw", "second".to_string()).unwrap();
    assert_eq!(again, auth);
}

#[test]
fn logout_closes_the_session() {
    let mut users = Users::new(Qaul::new());
    let auth = users.create("pw", ident(1), "first".to_string()).unwrap();
    assert_eq!(users.logout(auth.clone()), Ok(()));
    assert_eq!(users.logout(auth.clone()), Err(QaulError::NotAuthorised));
    assert_eq!(users.change_pw(auth, "new"), Err(QaulError::NotAuthorised));
    let fresh = users.login(ident(1), "pw", "second".to_string()).unwrap();
    assert_eq!(fresh.1, "second");
}

#[test]
fn change_pw_takes_effect() {
    let mut users = Users::new(Qaul::new());
    let auth = users.create("old", ident(2), "t".to_string()).unwrap();
    assert_eq!(users.change_pw(auth.clone(), "new"), Ok(()));
    assert_eq!(users.logout(auth), Ok(()));
    assert_eq!(users.login(ident(2), "old", "u".to_string()), Err(QaulError::NotAuthorised));
    assert!(users.login(ident(2), "new", "u".to_string()).is_ok());
}
