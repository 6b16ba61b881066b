use mealie_backup::get_backup::{
    is_success, BackupError, BackupService, FileTokenResponse, HttpRequest, Method,
};

fn service() -> BackupService {
    BackupService::new("http://mealie.local:9000".to_string(), "k3y".to_string())
}

fn language() -> Option<String> {
    Some("en-US".to_string())
}

fn authorized(method: Method, url: &str, accept_language: Option<&str>) -> HttpRequest {
    HttpRequest {
        method,
        url: url.to_string(),
        accept_language: accept_language.map(|l| l.to_string()),
        authorization: Some("Bearer k3y".to_string()),
        token: None,
    }
}

#[test]
fn success_codes_are_200_to_299() {
    for status in 0..=u16::MAX {
        assert_eq!(is_success(status), (200..300).contains(&status));
    }
}

#[test]
fn list_request_is_get_on_the_collection() {
    let request = service().get_all_backups(language()).unwrap();
    let expected =
        authorized(Method::Get, "http://mealie.local:9000/api/admin/backups", Some("en-US"));
    assert_eq!(request, expected);
}

#[test]
fn create_request_is_post_on_the_collection() {
    let request = service().create_backup(language()).unwrap();
    let expected =
        authorized(Method::Post, "http://mealie.local:9000/api/admin/backups", Some("en-US"));
    assert_eq!(request, expected);
}

#[test]
fn token_request_is_get_on_the_backup() {
    let request = service().get_backup(&"b.zip".to_string(), language()).unwrap();
    let expected =
        authorized(Method::Get, "http://mealie.local:9000/api/admin/backups/b.zip", Some("en-US"));
    assert_eq!(request, expected);
}

#[test]
fn delete_request_is_delete_on_the_backup() {
    let request = service().delete_backup("a.zip".to_string(), language()).unwrap();
    let expected = authorized(
        Method::Delete,
        "http://mealie.local:9000/api/admin/backups/a.zip",
        Some("en-US"),
    );
    assert_eq!(request, expected);
}

#[test]
fn download_request_carries_only_the_token() {
    let token = FileTokenResponse { file_token: "t0k3n".to_string() };
    let request = service().download_backup(token);
    let expected = HttpRequest {
        method: Method::Get,
        url: "http://mealie.local:9000/api/utils/download".to_string(),
        accept_language: None,
        authorization: None,
        token: Some("t0k3n".to_string()),
    };
    assert_eq!(request, expected);
}

#[test]
fn language_is_optional() {
    let request = service().get_all_backups(None).unwrap();
    assert_eq!(request, authorized(Method::Get, "http://mealie.local:9000/api/admin/backups", None));
    let request = service().delete_backup("a.zip".to_string(), None).unwrap();
    assert_eq!(request.accept_language, None);
    assert_eq!(request.authorization, Some("Bearer k3y".to_string()));
}

#[test]
fn names_are_appended_as_they_are() {
    let request = service().get_backup(&"my backup #1.zip".to_string(), None).unwrap();
    assert_eq!(request.url, "http://mealie.local:9000/api/admin/backups/my backup #1.zip");
    let request = service().get_backup(&String::new(), None).unwrap();
    assert_eq!(request.url, "http://mealie.local:9000/api/admin/backups/");
}

#[test]
fn language_with_a_line_break_is_refused() {
    let refused = Some("en-US\r\nX-Injected: 1".to_string());
    assert_eq!(service().get_all_backups(refused.clone()), Err(BackupError::InvalidHeader));
    assert_eq!(service().create_backup(refused.clone()), Err(BackupError::InvalidHeader));
    assert_eq!(
        service().get_backup(&"b.zip".to_string(), refused.clone()),
        Err(BackupError::InvalidHeader)
    );
    assert_eq!(
        service().delete_backup("b.zip".to_string(), refused),
        Err(BackupError::InvalidHeader)
    );
}

#[test]
fn credential_with_a_control_character_is_refused() {
    for key in ["k\u{0}y", "key\n", "\u{7f}", "a\u{1f}b"] {
        let service = BackupService::new("http://h".to_string(), key.to_string());
        assert_eq!(service.get_all_backups(None), Err(BackupError::InvalidHeader), "{:?}", key);
    }
}

#[test]
fn header_values_may_hold_tabs_spaces_and_other_scripts() {
    for key in ["", " ", "a\tb", "~", "clé", "密钥", "\u{80}", "\u{10ffff}"] {
        let service = BackupService::new("http://h".to_string(), key.to_string());
        let request = service.get_all_backups(Some("de, fr;q=0.5".to_string())).unwrap();
        assert_eq!(request.authorization, Some(format!("Bearer {}", key)));
        assert_eq!(request.accept_language, Some("de, fr;q=0.5".to_string()));
    }
}

#[test]
fn header_rule_holds_for_every_low_character() {
    for code in 0u32..=0x100 {
        let c = char::from_u32(code).unwrap();
        let service = BackupService::new("http://h".to_string(), c.to_string());
        let accepted = c == '\t' || (code >= 32 && code != 127);
        assert_eq!(service.get_all_backups(None).is_ok(), accepted, "{:?}", c);
    }
}

#[test]
fn download_needs_no_valid_credential() {
    let service = BackupService::new("http://h".to_string(), "bad\nkey".to_string());
    let request = service.download_backup(FileTokenResponse { file_token: "t".to_string() });
    assert_eq!(request.url, "http://h/api/utils/download");
}
