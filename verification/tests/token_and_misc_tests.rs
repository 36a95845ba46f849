use todo_app::get_token_for_user;
use todo_app::get_user_by_token;
use todo_app::todo_list;
use todo_app::ApiResponse;
use todo_app::AppConfig;
use todo_app::PasswordLoginForm;
use todo_app::RecordId;

#[test]
fn sign_then_verify_round_trips_long_username() {
    let form = PasswordLoginForm {
        username: "walter".to_string(),
        password: "secret1".to_string(),
    };
    let token = get_token_for_user(&form);
    assert!(!token.is_empty());
    let (username, password) = get_user_by_token(token).expect("valid token");
    assert_eq!(username, "walter");
    assert_eq!(password, "secret1");
}

#[test]
fn sign_then_verify_short_username_gives_empty_pair() {
    let form = PasswordLoginForm { username: "walt".to_string(), password: "secret1".to_string() };
    let token = get_token_for_user(&form);
    let (username, password) = get_user_by_token(token).expect("valid token");
    assert_eq!(username, "");
    assert_eq!(password, "");
}

#[test]
fn garbage_token_is_refused() {
    assert!(get_user_by_token("definitely.not.a-token".to_string()).is_none());
    assert!(get_user_by_token("".to_string()).is_none());
}

#[test]
fn tokens_differ_between_users() {
    let a = get_token_for_user(&PasswordLoginForm {
        username: "walter".to_string(),
        password: "secret1".to_string(),
    });
    let b = get_token_for_user(&PasswordLoginForm {
        username: "agnes9".to_string(),
        password: "secret1".to_string(),
    });
    assert_ne!(a, b);
}

#[test]
fn record_id_parsing() {
    let id = RecordId::parse_str("0123456789abcdef01234567").expect("valid");
    assert_eq!(id.value(), 0x0123456789abcdef01234567u128);
    let upper = RecordId::parse_str("0123456789ABCDEF01234567").expect("valid uppercase");
    assert_eq!(upper.value(), id.value());
    assert!(RecordId::parse_str("not-an-id").is_none());
    assert!(RecordId::parse_str("0123456789abcdef0123456").is_none());
    assert!(RecordId::parse_str("0123456789abcdef012345678").is_none());
    assert!(RecordId::parse_str("0123456789abcdef0123456g").is_none());
}

#[test]
fn envelope_constructors() {
    let ok: ApiResponse<u32> = ApiResponse::success(7);
    assert_eq!(ok.code, 0);
    assert_eq!(ok.data, 7);
    assert_eq!(ok.msg, "");
    let err = ApiResponse::error(5001, "could not register user");
    assert_eq!(err.code, 5001);
    assert_eq!(err.data, "");
    assert_eq!(err.msg, "could not register user");
}

#[test]
fn app_config_defaults_and_overrides() {
    let d = AppConfig::with_defaults(None, None, None);
    assert_eq!(d.port, "4300");
    assert_eq!(d.mongodb_uri, "mongodb://localhost:27017");
    assert_eq!(d.mongodb_database, "todo-app");
    let o = AppConfig::with_defaults(
        Some("8080".to_string()),
        Some("mongodb://db:27017".to_string()),
        Some("prod".to_string()),
    );
    assert_eq!(o.port, "8080");
    assert_eq!(o.mongodb_uri, "mongodb://db:27017");
    assert_eq!(o.mongodb_database, "prod");
}

#[test]
fn todo_listing_requires_long_authorization() {
    let auth = Some("0123456789012345678901234567890".to_string());
    let list = todo_list(&auth).expect("authorized");
    assert_eq!(list.len(), 2);
    assert_eq!(list[0].id, 1);
    assert_eq!(list[0].title, "Learn Rust");
    assert!(!list[0].completed);
    assert_eq!(list[1].id, 2);
    assert_eq!(list[1].title, "Learn Actix");
    assert!(!list[1].completed);
    assert!(todo_list(&Some("short".to_string())).is_none());
    assert!(todo_list(&None).is_none());
}
