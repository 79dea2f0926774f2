use video_api::api::{CreateVideoRequest, UpdateVideoRequest};
use video_api::config::{parse_port, Config};
use video_api::error::{AppError, InvalidFields, StorageError};
use video_api::text::{compare_text, contains_text, same_text};
use video_api::validation::{check_title, check_youtube_id};

#[test]
fn title_length_bounds() {
    assert!(!check_title(&String::new()));
    assert!(check_title(&"a".to_string()));
    assert!(check_title(&"a".repeat(100)));
    assert!(!check_title(&"a".repeat(101)));
}

#[test]
fn youtube_id_length_is_exact() {
    assert!(check_youtube_id(&"dQw4w9WgXcQ".to_string()));
    assert!(!check_youtube_id(&"dQw4w9WgXc".to_string()));
    assert!(!check_youtube_id(&"dQw4w9WgXcQQ".to_string()));
}

#[test]
fn request_validation_names_fields() {
    let ok = CreateVideoRequest { title: "T".to_string(), youtube_id: "dQw4w9WgXcQ".to_string() };
    assert_eq!(ok.validate(), Ok(()));
    let partial = UpdateVideoRequest { title: None, youtube_id: Some("x".to_string()) };
    assert_eq!(partial.validate(), Err(InvalidFields { title: false, youtube_id: true }));
    let empty = UpdateVideoRequest { title: None, youtube_id: None };
    assert_eq!(empty.validate(), Ok(()));
}

#[test]
fn status_codes() {
    assert_eq!(AppError::Database(StorageError::Backend("x".to_string())).status_code(), 500);
    assert_eq!(AppError::Internal("x".to_string()).status_code(), 500);
    assert_eq!(AppError::BadRequest("x".to_string()).status_code(), 400);
    assert!(!AppError::Internal("x".to_string()).is_public());
    assert!(AppError::Validation(InvalidFields { title: true, youtube_id: false }).is_public());
}

#[test]
fn text_helpers() {
    assert!(same_text("abc", "abc"));
    assert!(!same_text("abc", "abd"));
    assert_eq!(compare_text("abc", "abd"), -1);
    assert_eq!(compare_text("b", "abc"), 1);
    assert_eq!(compare_text("ab", "abc"), -1);
    assert_eq!(compare_text("abc", "abc"), 0);
    assert!(contains_text("my awesome video", "awesome"));
    assert!(!contains_text("my Awesome video", "awesome"));
    assert!(contains_text("abc", ""));
    assert!(!contains_text("ab", "abc"));
}

#[test]
fn port_parsing() {
    assert_eq!(parse_port("8080"), Some(8080));
    assert_eq!(parse_port("+80"), Some(80));
    assert_eq!(parse_port("0"), Some(0));
    assert_eq!(parse_port("65535"), Some(65535));
    assert_eq!(parse_port("65536"), None);
    assert_eq!(parse_port("99999999999"), None);
    assert_eq!(parse_port(""), None);
    assert_eq!(parse_port("+"), None);
    assert_eq!(parse_port("-1"), None);
    assert_eq!(parse_port("80a"), None);
}

#[test]
fn config_defaults_and_overrides() {
    let d = Config::default();
    assert_eq!(d.database_url, "sqlite:./videos.db?mode=rwc");
    assert_eq!(d.server_host, "127.0.0.1");
    assert_eq!(d.server_port, 8080);
    let c = Config::from_values(Some("sqlite::memory:".to_string()), None, Some("9000".to_string()));
    assert_eq!(c.database_url, "sqlite::memory:");
    assert_eq!(c.server_host, "127.0.0.1");
    assert_eq!(c.server_port, 9000);
    let bad = Config::from_values(None, Some("0.0.0.0".to_string()), Some("http".to_string()));
    assert_eq!(bad.server_host, "0.0.0.0");
    assert_eq!(bad.server_port, 8080);
}
