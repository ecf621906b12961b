use minecraft_world::txt_auth::{Auth, AuthTxtBackend, User};

#[test]
fn from() {
    let backend = AuthTxtBackend::from("celeron55::interact,shout");
    assert_eq!(backend.users.len(), 1);
    assert_eq!(backend.users[0].name(), "celeron55");
    assert_eq!(backend.users[0].privileges(), vec!["interact", "shout"]);
}

#[test]
fn several_accounts_with_passwords() {
    let backend = AuthTxtBackend::from("alice:secret:fly\n\n bob : pw2 : \n");
    assert_eq!(backend.users.len(), 2);
    assert_eq!(backend.users[0].password(), "secret");
    assert_eq!(backend.users[0].privileges(), vec!["fly"]);
    assert_eq!(backend.users[1].name(), "bob");
    assert_eq!(backend.users[1].password(), "pw2");
    assert_eq!(backend.users[1].privileges(), vec![""]);
    assert_eq!(backend.users[1].last_login(), 0);
}

#[test]
fn get_and_add_user() {
    let mut backend = AuthTxtBackend::from("a::x\nb::y\n");
    assert_eq!(backend.get_user("b".to_string()).unwrap().privileges(), vec!["y"]);
    assert!(backend.get_user("c".to_string()).is_none());
    let added = backend.add_user("c".to_string()).unwrap();
    assert_eq!(added.name(), "c");
    assert_eq!(added.privileges(), Vec::<String>::new());
    assert_eq!(backend.users.len(), 3);
    assert_eq!(backend.get_user("c".to_string()).unwrap().password(), "");
}
