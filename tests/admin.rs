use route_proxy::assets::{cache_control_for, is_safe_asset_name, static_asset_path};
use route_proxy::logfile::{
    current_log_state, is_expired_given, is_expired_log, log_file_name, log_index_of, rotation, LogEntry,
    Rotation,
};
use route_proxy::session::{access_for, credentials_match, extract_token, session_active, Access};
use route_proxy::token::{format_token, generate_token};

#[test]
fn bearer_token_wins() {
    assert_eq!(extract_token(Some("Bearer abc"), Some("token=xyz")), Some("abc".to_string()));
    assert_eq!(extract_token(Some("Basic abc"), Some("token=xyz")), Some("xyz".to_string()));
    assert_eq!(extract_token(Some("bearer abc"), None), None);
    assert_eq!(extract_token(None, None), None);
}

#[test]
fn cookie_token_is_found_among_parts() {
    assert_eq!(extract_token(None, Some("a=1; token=t0k; b=2")), Some("t0k".to_string()));
    assert_eq!(extract_token(None, Some("  token=q  ")), Some("q".to_string()));
    assert_eq!(extract_token(None, Some("mytoken=1;tokens=2")), None);
    assert_eq!(extract_token(None, Some("token=")), Some(String::new()));
    assert_eq!(extract_token(None, Some("a;;token=z;token=w")), Some("z".to_string()));
}

#[test]
fn access_rules() {
    assert_eq!(access_for("/api/login", false), Access::Allow);
    assert_eq!(access_for("/static/app.js", false), Access::Allow);
    assert_eq!(access_for("/api/rules", false), Access::Unauthorized);
    assert_eq!(access_for("/", false), Access::RedirectToLogin);
    assert_eq!(access_for("/api/rules", true), Access::Allow);
    assert_eq!(access_for("/api/login/x", false), Access::Unauthorized);
}

#[test]
fn sessions_and_credentials() {
    assert!(session_active(101, 100));
    assert!(!session_active(100, 100));
    let (u, p) = ("admin".to_string(), "pw".to_string());
    assert!(credentials_match(&u, &p, &"admin".to_string(), &"pw".to_string()));
    assert!(!credentials_match(&u, &p, &"admin".to_string(), &"px".to_string()));
}

#[test]
fn token_is_two_hex_numbers() {
    assert_eq!(format_token(0x1a2b, 0xff), "1a2bff");
    assert_eq!(format_token(0, 0), "00");
    let t = generate_token();
    assert!(t.len() >= 2 && t.chars().all(|c| c.is_ascii_hexdigit()));
}

#[test]
fn log_file_names() {
    assert_eq!(log_file_name("2024-05-06", 1), "2024-05-06-1.log");
    assert_eq!(log_file_name("2024-05-06", 4294967295), "2024-05-06-4294967295.log");
    assert_eq!(log_index_of("2024-05-06-12.log", "2024-05-06"), Some(12));
    assert_eq!(log_index_of("2024-05-06-+7.log", "2024-05-06"), Some(7));
    assert_eq!(log_index_of("2024-05-06-.log", "2024-05-06"), None);
    assert_eq!(log_index_of("2024-05-06-4294967296.log", "2024-05-06"), None);
    assert_eq!(log_index_of("2024-05-07-1.log", "2024-05-06"), None);
    assert_eq!(log_index_of("2024-05-06-1.txt", "2024-05-06"), None);
}

#[test]
fn log_state_takes_highest_index() {
    let e = |n: &str, s: Option<u64>| LogEntry { name: n.to_string(), size: s };
    let entries = vec![
        e("2024-05-06-2.log", Some(20)),
        e("2024-05-06-3.log", Some(30)),
        e("2024-05-05-9.log", Some(90)),
        e("2024-05-06-1.log", Some(10)),
    ];
    assert_eq!(current_log_state(&entries, "2024-05-06"), (3, 30));
    assert_eq!(current_log_state(&vec![], "2024-05-06"), (1, 0));
    assert_eq!(current_log_state(&vec![e("2024-05-06-1.log", Some(5))], "2024-05-06"), (1, 5));
}

#[test]
fn rotation_decisions() {
    assert_eq!(rotation(false, 0, 10), Rotation::NewDay);
    assert_eq!(rotation(true, 10, 10), Rotation::NextFile);
    assert_eq!(rotation(true, 9, 10), Rotation::Keep);
}

#[test]
fn static_asset_paths() {
    assert_eq!(static_asset_path("/static/app.js"), "app.js");
    assert_eq!(static_asset_path("//static/static/css/a.css"), "css/a.css");
    assert_eq!(static_asset_path("/static/"), "index.html");
    assert_eq!(static_asset_path("/"), "index.html");
    assert_eq!(cache_control_for("index.html"), "no-cache");
    assert_eq!(cache_control_for("app.js"), "public, max-age=86400");
}

#[test]
fn asset_names_stay_inside() {
    assert!(is_safe_asset_name("css/app.css"));
    assert!(is_safe_asset_name("a.b.c"));
    assert!(!is_safe_asset_name("../secret"));
    assert!(!is_safe_asset_name("x/.."));
}

#[test]
fn expired_logs() {
    assert!(is_expired_log("2020-01-01-1.log", (2024, 1, 1)));
    assert!(is_expired_log("2023-12-31-4.log", (2024, 1, 1)));
    assert!(!is_expired_log("2024-01-01-1.log", (2024, 1, 1)));
    assert!(!is_expired_log("2024-01-02-1.log", (2024, 1, 1)));
    assert!(!is_expired_log("2020-13-01-1.log", (2024, 1, 1)));
    assert!(!is_expired_log("2020-01-01-1.txt", (2024, 1, 1)));
    assert!(!is_expired_log("a.log", (2024, 1, 1)));
    assert!(is_expired_given("2020-01-01-1.log", Some((2020, 1, 1)), (2020, 1, 2)));
    assert!(!is_expired_given("2020-01-01-1.log", None, (2020, 1, 2)));
    assert!(!is_expired_given("x.log", Some((2000, 1, 1)), (2020, 1, 2)));
}
