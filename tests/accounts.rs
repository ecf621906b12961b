use minecraft_world::reconcile::plan_statements;
use minecraft_world::statement::SqlParam;
use minecraft_world::accounts::AuthSqlBackend;
use minecraft_world::reconcile::{load_users, plan_save, AccountRow, AuthSqlBackendUser};

fn user(name: &str, privileges: &[&str]) -> AuthSqlBackendUser {
    AuthSqlBackendUser {
        name: name.to_string(),
        password: String::new(),
        last_login: 0,
        privileges: privileges.iter().map(|p| p.to_string()).collect(),
    }
}

#[test]
fn open_memory() {
    let backend = AuthSqlBackend::open_memory().unwrap();
    assert_eq!(backend.users.len(), 0);
}

#[test]
fn save() {
    // Populate the database with some users
    let mut backend = AuthSqlBackend::open_memory().unwrap();
    for i in 0..10 {
        backend.users.push(AuthSqlBackendUser {
            name: format!("user{}", i),
            password: String::new(),
            last_login: 0,
            privileges: vec!["interact".to_string(), "shout".to_string()],
        });
    }
    backend.save().unwrap();

    backend.reload().unwrap();
    assert_eq!(backend.users.len(), 10);
    for i in 0..10 {
        assert!(backend.users.iter().find(|user| user.name == format!("user{}", i)).is_some());
    }

    // Test erasing a user
    backend.users.remove(6);

    backend.save().unwrap();

    backend.reload().unwrap();

    assert_eq!(backend.users.len(), 9);

    for i in 0..10 {
        if i == 6 {
            // assert that user 6 is not present
            assert!(backend.users.iter().find(|user| user.name == "user6").is_none());
            continue;
        }
        assert!(backend.users.iter().find(|user| user.name == format!("user{}", i)).is_some());
        assert!(backend
            .users
            .iter()
            .find(|user| user.name == format!("user{}", i))
            .unwrap()
            .privileges
            .iter()
            .find(|p| p.to_string() == "shout")
            .is_some());
    }
}

#[test]
fn ten_users_keep_both_privileges() {
    let mut backend = AuthSqlBackend::open_memory().unwrap();
    for i in 0..10 {
        backend.users.push(user(&format!("user{}", i), &["interact", "shout"]));
    }
    backend.save().unwrap();
    backend.reload().unwrap();
    assert_eq!(backend.users().len(), 10);
    for u in backend.users() {
        let mut ps = u.privileges.clone();
        ps.sort();
        assert_eq!(ps, vec!["interact".to_string(), "shout".to_string()]);
    }
    backend.users.retain(|u| u.name != "user6");
    backend.save().unwrap();
    backend.reload().unwrap();
    assert_eq!(backend.users.len(), 9);
    assert!(backend.users.iter().all(|u| u.name != "user6"));
    for u in &backend.users {
        assert!(u.privileges.contains(&"interact".to_string()));
        assert!(u.privileges.contains(&"shout".to_string()));
    }
}

#[test]
fn save_reload_save_changes_nothing() {
    let mut backend = AuthSqlBackend::open_memory().unwrap();
    backend.users.push(AuthSqlBackendUser {
        name: "a".to_string(),
        password: "pw".to_string(),
        last_login: 42,
        privileges: vec!["fly".to_string()],
    });
    backend.users.push(user("b", &["fly", "fast"]));
    backend.save().unwrap();
    backend.reload().unwrap();
    let first: Vec<(String, String, i32, Vec<String>)> = backend
        .users
        .iter()
        .map(|u| (u.name.clone(), u.password.clone(), u.last_login, u.privileges.clone()))
        .collect();
    backend.save().unwrap();
    backend.reload().unwrap();
    let second: Vec<(String, String, i32, Vec<String>)> = backend
        .users
        .iter()
        .map(|u| (u.name.clone(), u.password.clone(), u.last_login, u.privileges.clone()))
        .collect();
    assert_eq!(first, second);
    assert_eq!(first[0], ("a".to_string(), "pw".to_string(), 42, vec!["fly".to_string()]));
}

#[test]
fn plan_after_load_is_quiet() {
    let accounts = vec![
        AccountRow { id: 1, name: "a".to_string(), password: "x".to_string(), last_login: 3 },
        AccountRow { id: 2, name: "b".to_string(), password: "y".to_string(), last_login: 4 },
    ];
    let privs = vec![(1, "fly".to_string()), (2, "fly".to_string()), (2, "shout".to_string()), (9, "orphan".to_string())];
    let users = load_users(&accounts, &privs);
    assert_eq!(users.len(), 2);
    assert_eq!(users[1].privileges, vec!["fly".to_string(), "shout".to_string()]);
    assert_eq!(users[0].last_login, 3);
    let ids: Vec<(i64, String)> = accounts.iter().map(|a| (a.id, a.name.clone())).collect();
    let plan = plan_save(&ids, &privs, &users);
    assert_eq!(plan.updates, vec![(1, 0), (2, 1)]);
    assert!(plan.inserts.is_empty());
    assert!(plan.revoked.is_empty());
    assert!(plan.grants.is_empty());
    assert!(plan.removals.is_empty());
}

#[test]
fn plan_of_edits() {
    let ids = vec![(1, "a".to_string()), (2, "b".to_string())];
    let privs = vec![(1, "fly".to_string()), (1, "shout".to_string()), (2, "fly".to_string())];
    let users = vec![user("a", &["fly", "build"]), user("c", &["fly", "dig"]), user("c", &[])];
    let plan = plan_save(&ids, &privs, &users);
    assert_eq!(plan.updates, vec![(1, 0)]);
    assert_eq!(plan.inserts, vec![1]);
    assert_eq!(plan.revoked, vec![(1, "shout".to_string())]);
    assert_eq!(
        plan.grants,
        vec![
            ("a".to_string(), "build".to_string()),
            ("c".to_string(), "dig".to_string()),
        ]
    );
    assert_eq!(plan.removals, vec![2]);
}

#[test]
fn privilege_granted_elsewhere_is_not_inserted_again() {
    let mut backend = AuthSqlBackend::open_memory().unwrap();
    backend.users.push(user("a", &["fly"]));
    backend.save().unwrap();
    backend.users.push(user("b", &["fly"]));
    backend.save().unwrap();
    backend.reload().unwrap();
    let b = backend.users.iter().find(|u| u.name == "b").unwrap();
    assert!(b.privileges.is_empty());
}

#[test]
fn failed_save_rolls_back() {
    let mut backend = AuthSqlBackend::open_memory().unwrap();
    backend.users.push(user("a", &["fly"]));
    backend.save().unwrap();
    backend.users.push(user("b", &["dig", "dig"]));
    assert!(backend.save().is_err());
    backend.reload().unwrap();
    assert_eq!(backend.users.len(), 1);
    assert_eq!(backend.users[0].name, "a");
}

#[test]
fn plan_statements_in_order() {
    let ids = vec![(1, "a".to_string()), (2, "b".to_string())];
    let privs = vec![(1, "fly".to_string()), (1, "shout".to_string()), (2, "fly".to_string())];
    let mut a = user("a", &["fly", "build"]);
    a.password = "pw".to_string();
    a.last_login = 5;
    let users = vec![a, user("c", &["dig"])];
    let plan = plan_save(&ids, &privs, &users);
    let sts = plan_statements(&plan, &users);
    let sqls: Vec<&str> = sts.iter().map(|s| s.sql.as_str()).collect();
    assert_eq!(
        sqls,
        vec![
            "UPDATE auth SET name = ?, password = ?, last_login = ? WHERE id = ?",
            "INSERT INTO auth (name, password, last_login) VALUES (?, ?, ?)",
            "DELETE FROM user_privileges WHERE id = ? AND privilege = ?",
            "INSERT INTO user_privileges (id, privilege) SELECT id, ? FROM auth WHERE name = ?",
            "INSERT INTO user_privileges (id, privilege) SELECT id, ? FROM auth WHERE name = ?",
            "DELETE FROM auth WHERE id = ?",
        ]
    );
    assert_eq!(
        sts[0].params,
        vec![SqlParam::Text("a".to_string()), SqlParam::Text("pw".to_string()), SqlParam::Int(5), SqlParam::Int(1)]
    );
    assert_eq!(sts[2].params, vec![SqlParam::Int(1), SqlParam::Text("shout".to_string())]);
    assert_eq!(sts[3].params, vec![SqlParam::Text("build".to_string()), SqlParam::Text("a".to_string())]);
    assert_eq!(sts[4].params, vec![SqlParam::Text("dig".to_string()), SqlParam::Text("c".to_string())]);
    assert_eq!(sts[5].params, vec![SqlParam::Int(2)]);
}

#[test]
fn ids_of_kept_accounts_survive_a_save() {
    let mut backend = AuthSqlBackend::open_memory().unwrap();
    backend.users.push(user("a", &[]));
    backend.users.push(user("b", &[]));
    backend.save().unwrap();
    backend.users.retain(|u| u.name != "a");
    backend.users.push(user("c", &[]));
    backend.users[0].password = "new".to_string();
    backend.save().unwrap();
    backend.reload().unwrap();
    let names: Vec<&str> = backend.users.iter().map(|u| u.name.as_str()).collect();
    assert_eq!(names, vec!["b", "c"]);
    assert_eq!(backend.users[0].password, "new");
}
