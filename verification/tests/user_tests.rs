use todo_app::create_user;
use todo_app::delete_user;
use todo_app::do_login_by_password;
use todo_app::find_user;
use todo_app::find_user_list;
use todo_app::update_user;
use todo_app::validate_user_info;
use todo_app::PageQuery;
use todo_app::PasswordLoginForm;
use todo_app::RecordId;
use todo_app::RegisterForm;
use todo_app::UserDocument;
use todo_app::UserInfo;
use todo_app::UserStore;

fn form(username: &str, password: &str, email: &str) -> RegisterForm {
    RegisterForm {
        email: email.to_string(),
        username: username.to_string(),
        password: password.to_string(),
    }
}

fn empty_patch() -> UserInfo {
    UserInfo { username: None, password: None, email: None, admin: None, token: None }
}

fn register(store: &mut UserStore, username: &str, password: &str, email: &str) -> RecordId {
    let env = create_user(store, form(username, password, email)).expect("register");
    assert_eq!(env.code, 0);
    env.data
}

fn id_text(id: &RecordId) -> String {
    format!("{:024x}", id.value())
}

#[test]
fn test_eq() {
    let a = "123";
    let b = "123";
    let c = String::from("123");
    let d = String::from("123");
    assert_eq!(a, b);
    assert_eq!(c, d);
}

#[test]
fn test_find_many() {
    let mut store = UserStore::new();
    register(&mut store, "walter", "secret1", "walter@example.com");
    register(&mut store, "agnes", "secret2", "agnes@example.com");
    register(&mut store, "miriam", "secret3", "miriam@example.com");
    let res = UserDocument::find_many(&store, PageQuery { page: 1, page_size: 10 })
        .expect("page");
    assert!(res.total > 0);
    assert!(res.data.len() > 0);
    assert!(res.total >= res.data.len() as u64);
}

#[test]
fn register_then_find_redacts() {
    let mut store = UserStore::new();
    let id = register(&mut store, "walter", "secret1", "walter@example.com");
    let env = find_user(&store, id_text(&id).as_str()).expect("found");
    assert_eq!(env.code, 0);
    assert_eq!(env.data.username, "walter");
    assert_eq!(env.data.email, "walter@example.com");
    assert_eq!(env.data.password, "");
    assert_eq!(env.data.token, "");
}

#[test]
fn page_is_bounded_and_sorted() {
    let mut store = UserStore::new();
    for i in 0..15u32 {
        let name = format!("user{:02}", (97 - i * 7) % 100);
        register(&mut store, name.as_str(), "secret1", "user@example.com");
    }
    let env = find_user_list(&store, PageQuery { page: 1, page_size: 10 }).expect("list");
    assert_eq!(env.code, 0);
    assert!(env.data.data.len() <= 10);
    assert!(env.data.total >= env.data.data.len() as u64);
    assert_eq!(env.data.total, 15);
    for w in env.data.data.windows(2) {
        assert!(w[0].username <= w[1].username);
    }
    for rec in &env.data.data {
        assert_eq!(rec.password, "");
        assert_eq!(rec.token, "");
    }
}

#[test]
fn listing_has_exact_sorted_order() {
    let mut store = UserStore::new();
    register(&mut store, "charlie", "secret1", "c@example.com");
    register(&mut store, "alpha99", "secret2", "a@example.com");
    register(&mut store, "bravo55", "secret3", "b@example.com");
    let env = find_user_list(&store, PageQuery { page: 1, page_size: 10 }).expect("list");
    let names: Vec<&str> = env.data.data.iter().map(|u| u.username.as_str()).collect();
    assert_eq!(names, vec!["alpha99", "bravo55", "charlie"]);
}

#[test]
fn consecutive_pages_are_disjoint() {
    let mut store = UserStore::new();
    for i in 0..25u32 {
        let name = format!("user{:02}", (i * 13) % 100);
        register(&mut store, name.as_str(), "secret1", "user@example.com");
    }
    let page1 = find_user_list(&store, PageQuery { page: 1, page_size: 10 }).expect("p1");
    let page2 = find_user_list(&store, PageQuery { page: 2, page_size: 10 }).expect("p2");
    assert_eq!(page1.data.total, 25);
    assert_eq!(page1.data.data.len(), 10);
    assert_eq!(page2.data.data.len(), 10);
    for a in &page1.data.data {
        for b in &page2.data.data {
            assert!(a._id.value() != b._id.value());
        }
    }
}

#[test]
fn update_rejects_short_username_without_store_read() {
    let mut store = UserStore::new();
    let id = register(&mut store, "walter", "secret1", "walter@example.com");
    let mut patch = empty_patch();
    patch.username = Some("abc".to_string());
    let err = update_user(&mut store, id_text(&id).as_str(), &patch).expect_err("rejected");
    assert_eq!(err.code, 5003);
    assert_eq!(err.msg, "username must be at least 5 characters");
}

#[test]
fn validation_checks_all_fields_in_order() {
    let mut patch = empty_patch();
    patch.password = Some("abc".to_string());
    let err = validate_user_info(&patch).expect("short password");
    assert_eq!(err.code, 5003);
    assert_eq!(err.msg, "password must be at least 5 characters");

    let mut patch = empty_patch();
    patch.email = Some("a@b".to_string());
    let err = validate_user_info(&patch).expect("short email");
    assert_eq!(err.code, 5003);
    assert_eq!(err.msg, "email must be at least 5 characters");

    let mut patch = empty_patch();
    patch.username = Some("abc".to_string());
    patch.password = Some("abc".to_string());
    let err = validate_user_info(&patch).expect("username checked first");
    assert_eq!(err.msg, "username must be at least 5 characters");

    let mut ok = empty_patch();
    ok.username = Some("abcde".to_string());
    ok.password = Some("abcde".to_string());
    ok.email = Some("a@b.c".to_string());
    assert!(validate_user_info(&ok).is_none());
}

#[test]
fn update_merges_only_email_and_persists_redacted() {
    let mut store = UserStore::new();
    let id = register(&mut store, "walter", "secret1", "walter@example.com");
    let mut patch = empty_patch();
    patch.username = Some("newname".to_string());
    patch.password = Some("newpass".to_string());
    patch.email = Some("new@example.com".to_string());
    let env = update_user(&mut store, id_text(&id).as_str(), &patch).expect("updated");
    assert_eq!(env.code, 0);
    assert_eq!(env.data.email, "new@example.com");
    assert_eq!(env.data.username, "walter");
    let raw = UserDocument::find_by_username(&store, "walter".to_string()).expect("raw");
    assert_eq!(raw.email, "new@example.com");
    assert_eq!(raw.password, "");
    assert_eq!(raw.token, "");
}

#[test]
fn update_missing_record_gives_bad_id_code() {
    let mut store = UserStore::new();
    let err = update_user(&mut store, "0123456789abcdef01234567", &empty_patch())
        .expect_err("absent");
    assert_eq!(err.code, 5004);
}

#[test]
fn update_malformed_id_rejected() {
    let mut store = UserStore::new();
    let err = update_user(&mut store, "not-an-id", &empty_patch()).expect_err("malformed");
    assert_eq!(err.code, 5004);
}

#[test]
fn login_success_sets_cookie_and_persists_token() {
    let mut store = UserStore::new();
    register(&mut store, "walter", "secret1", "walter@example.com");
    let login = PasswordLoginForm {
        username: "walter".to_string(),
        password: "secret1".to_string(),
    };
    let (env, cookie) = do_login_by_password(&mut store, login).expect("login");
    assert_eq!(env.code, 0);
    assert!(!env.data.token.is_empty());
    assert_eq!(env.data.password, "");
    assert_eq!(cookie, format!("token={}", env.data.token));
    let raw = UserDocument::find_by_username(&store, "walter".to_string()).expect("raw");
    assert_eq!(raw.token, env.data.token);
}

#[test]
fn login_wrong_password_leaves_token_alone() {
    let mut store = UserStore::new();
    register(&mut store, "walter", "secret1", "walter@example.com");
    let login = PasswordLoginForm {
        username: "walter".to_string(),
        password: "wrong11".to_string(),
    };
    let err = do_login_by_password(&mut store, login).expect_err("refused");
    assert_eq!(err.code, 5002);
    let raw = UserDocument::find_by_username(&store, "walter".to_string()).expect("raw");
    assert_eq!(raw.token, "");
}

#[test]
fn login_unknown_user_refused() {
    let mut store = UserStore::new();
    let login = PasswordLoginForm {
        username: "nobody99".to_string(),
        password: "secret1".to_string(),
    };
    let err = do_login_by_password(&mut store, login).expect_err("refused");
    assert_eq!(err.code, 5002);
}

#[test]
fn delete_invalid_id_gives_5004_and_keeps_records() {
    let mut store = UserStore::new();
    register(&mut store, "walter", "secret1", "walter@example.com");
    let err = delete_user(&mut store, "not-an-id").expect_err("malformed");
    assert_eq!(err.code, 5004);
    let env = find_user_list(&store, PageQuery { page: 1, page_size: 10 }).expect("list");
    assert_eq!(env.data.total, 1);
}

#[test]
fn delete_returns_record_and_removes_it() {
    let mut store = UserStore::new();
    let id = register(&mut store, "walter", "secret1", "walter@example.com");
    let env = delete_user(&mut store, id_text(&id).as_str()).expect("deleted");
    assert_eq!(env.code, 0);
    assert_eq!(env.data.username, "walter");
    assert_eq!(env.data.password, "secret1");
    let err = find_user(&store, id_text(&id).as_str()).expect_err("gone");
    assert_eq!(err.code, 5002);
}

#[test]
fn delete_missing_record_gives_5002() {
    let mut store = UserStore::new();
    let err = delete_user(&mut store, "0123456789abcdef01234567").expect_err("absent");
    assert_eq!(err.code, 5002);
}
