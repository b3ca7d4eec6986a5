use apprunner::db::models::ApiMask;
use apprunner::tui::input::{KeyCode, KeyInput};
use apprunner::tui::mask_form::{
    handle_mask_form_key, headers_to_json, mask_key_allowed, masked_value, parse_headers_json,
    HeaderColumn,
    HeaderRow, HeaderTableMode, MaskFormAction, MaskFormState,
};

fn key(code: KeyCode) -> KeyInput {
    KeyInput::plain(code)
}

#[test]
fn test_new_mask_form() {
    let form = MaskFormState::new();
    assert_eq!(form.name, "");
    assert_eq!(form.target_url, "");
    assert_eq!(form.port, "");
    assert!(!form.auto_start);
    assert!(form.headers.is_empty());
    assert!(!form.editing);
}

#[test]
fn test_from_mask() {
    let mask = ApiMask {
        id: 1,
        name: "openai".to_string(),
        target_url: "https://api.openai.com".to_string(),
        listen_port: 8080,
        headers: r#"{"Authorization":"Bearer sk-test"}"#.to_string(),
        auto_start: true,
        created_at: "2024-01-01".to_string(),
    };

    let form = MaskFormState::from_mask(&mask);
    assert_eq!(form.name, "openai");
    assert_eq!(form.target_url, "https://api.openai.com");
    assert_eq!(form.port, "8080");
    assert!(form.auto_start);
    assert_eq!(form.headers.len(), 1);
    assert_eq!(form.headers[0].key, "Authorization");
    assert_eq!(form.headers[0].value, "Bearer sk-test");
    assert!(form.editing);
    assert_eq!(form.edit_id, Some(1));
}

#[test]
fn test_validate_empty_name() {
    let mut form = MaskFormState::new();
    form.target_url = "https://api.example.com".to_string();
    form.port = "8080".to_string();
    assert!(!form.validate());
    assert!(form.errors.iter().any(|e| e.contains("Name")));
}

#[test]
fn test_validate_invalid_url() {
    let mut form = MaskFormState::new();
    form.name = "test".to_string();
    form.target_url = "not-a-url".to_string();
    form.port = "8080".to_string();
    assert!(!form.validate());
    assert!(form.errors.iter().any(|e| e.contains("http")));
}

#[test]
fn test_validate_invalid_port() {
    let mut form = MaskFormState::new();
    form.name = "test".to_string();
    form.target_url = "https://api.example.com".to_string();
    form.port = "abc".to_string();
    assert!(!form.validate());
    assert!(form.errors.iter().any(|e| e.contains("Port")));
}

#[test]
fn test_validate_port_zero() {
    let mut form = MaskFormState::new();
    form.name = "test".to_string();
    form.target_url = "https://api.example.com".to_string();
    form.port = "0".to_string();
    assert!(!form.validate());
    assert!(form.errors.iter().any(|e| e.contains("Port")));
}

#[test]
fn test_validate_valid_form() {
    let mut form = MaskFormState::new();
    form.name = "test".to_string();
    form.target_url = "https://api.example.com".to_string();
    form.port = "8080".to_string();
    assert!(form.validate());
    assert!(form.errors.is_empty());
}

#[test]
fn test_to_new_mask() {
    let mut form = MaskFormState::new();
    form.name = "openai".to_string();
    form.target_url = "https://api.openai.com".to_string();
    form.port = "8080".to_string();
    form.auto_start = true;
    form.headers = vec![HeaderRow {
        key: "Authorization".to_string(),
        value: "Bearer sk-test".to_string(),
    }];

    let mask = form.to_new_mask();
    assert_eq!(mask.name, "openai");
    assert_eq!(mask.target_url, "https://api.openai.com");
    assert_eq!(mask.listen_port, 8080);
    assert!(mask.auto_start);

    let parsed: serde_json::Value = serde_json::from_str(&mask.headers).unwrap();
    assert_eq!(parsed["Authorization"], "Bearer sk-test");
}

#[test]
fn test_add_and_delete_header_row() {
    let mut form = MaskFormState::new();
    form.current_field = 4;
    assert!(form.headers.is_empty());

    form.add_header_row();
    assert_eq!(form.headers.len(), 1);
    assert_eq!(form.header_selected_row, 0);
    assert_eq!(form.header_mode, HeaderTableMode::Edit);

    form.header_mode = HeaderTableMode::Navigate;
    form.add_header_row();
    assert_eq!(form.headers.len(), 2);
    assert_eq!(form.header_selected_row, 1);

    form.header_mode = HeaderTableMode::Navigate;
    form.delete_header_row();
    assert_eq!(form.headers.len(), 1);
}

#[test]
fn test_header_insert_char() {
    let mut form = MaskFormState::new();
    form.headers = vec![HeaderRow { key: String::new(), value: String::new() }];
    form.header_selected_row = 0;
    form.header_column = HeaderColumn::Key;
    form.cursor_pos = 0;

    form.header_insert_char('A');
    form.header_insert_char('u');
    form.header_insert_char('t');
    form.header_insert_char('h');
    assert_eq!(form.headers[0].key, "Auth");
    assert_eq!(form.cursor_pos, 4);
}

#[test]
fn test_header_delete_char() {
    let mut form = MaskFormState::new();
    form.headers = vec![HeaderRow { key: "Auth".to_string(), value: String::new() }];
    form.header_selected_row = 0;
    form.header_column = HeaderColumn::Key;
    form.cursor_pos = 4;

    form.header_delete_char();
    assert_eq!(form.headers[0].key, "Aut");
    assert_eq!(form.cursor_pos, 3);
}

#[test]
fn test_headers_to_json() {
    let headers = vec![
        HeaderRow { key: "Authorization".to_string(), value: "Bearer sk-test".to_string() },
        HeaderRow { key: "X-Org-Id".to_string(), value: "org-123".to_string() },
    ];

    let json = headers_to_json(&headers);
    let parsed: serde_json::Value = serde_json::from_str(&json).unwrap();
    assert_eq!(parsed["Authorization"], "Bearer sk-test");
    assert_eq!(parsed["X-Org-Id"], "org-123");
}

#[test]
fn test_parse_headers_json() {
    let json = r#"{"Authorization":"Bearer sk-test","X-Org-Id":"org-123"}"#;
    let headers = parse_headers_json(json);
    assert_eq!(headers.len(), 2);
    assert!(headers.iter().any(|h| h.key == "Authorization"));
    assert!(headers.iter().any(|h| h.key == "X-Org-Id"));
}

#[test]
fn test_handle_mask_form_key_esc_cancels() {
    let mut form = MaskFormState::new();
    let action = handle_mask_form_key(key(KeyCode::Esc), &mut form);
    assert_eq!(action, MaskFormAction::Cancel);
}

#[test]
fn test_handle_mask_form_key_tab_advances() {
    let mut form = MaskFormState::new();
    assert_eq!(form.current_field, 0);
    handle_mask_form_key(key(KeyCode::Tab), &mut form);
    assert_eq!(form.current_field, 1);
}

#[test]
fn test_handle_mask_form_key_enter_validates() {
    let mut form = MaskFormState::new();
    form.name = "test".to_string();
    form.target_url = "https://api.example.com".to_string();
    form.port = "8080".to_string();

    let action = handle_mask_form_key(key(KeyCode::Enter), &mut form);
    match action {
        MaskFormAction::Save(mask) => {
            assert_eq!(mask.name, "test");
            assert_eq!(mask.listen_port, 8080);
        }
        other => panic!("Expected Save, got {:?}", other),
    }
}

#[test]
fn test_header_value_masked_in_display() {
    let row = HeaderRow {
        key: "Authorization".to_string(),
        value: "Bearer sk-secret".to_string(),
    };
    let masked = masked_value(&row.value);
    assert_eq!(masked.chars().count(), 16);
    assert!(!masked.contains("sk-secret"));
}

// Further cases.

#[test]
fn masked_value_is_capped_at_twenty() {
    let long = "x".repeat(50);
    assert_eq!(masked_value(&long), "\u{2022}".repeat(20));
    assert_eq!(masked_value(""), "");
}

#[test]
fn headers_to_json_skips_blank_keys_and_trims() {
    let headers = vec![
        HeaderRow { key: "  ".to_string(), value: "dropped".to_string() },
        HeaderRow { key: " X-Key ".to_string(), value: " v ".to_string() },
    ];
    let json = headers_to_json(&headers);
    let parsed: serde_json::Value = serde_json::from_str(&json).unwrap();
    assert_eq!(parsed.as_object().unwrap().len(), 1);
    assert_eq!(parsed["X-Key"], " v ");
}

#[test]
fn parse_headers_json_of_blank_or_invalid_is_empty() {
    assert!(parse_headers_json("").is_empty());
    assert!(parse_headers_json("{}").is_empty());
    assert!(parse_headers_json("not json").is_empty());
    assert!(parse_headers_json("[1,2]").is_empty());
}

#[test]
fn validate_reports_blank_key_with_value() {
    let mut form = MaskFormState::new();
    form.name = "m".to_string();
    form.target_url = "http://localhost:1".to_string();
    form.port = "9000".to_string();
    form.headers = vec![
        HeaderRow { key: "A".to_string(), value: "1".to_string() },
        HeaderRow { key: "".to_string(), value: "2".to_string() },
    ];
    assert!(!form.validate());
    assert_eq!(form.errors, vec!["Header row 2: key cannot be empty".to_string()]);
}

#[test]
fn to_new_mask_defaults_port_when_unreadable() {
    let mut form = MaskFormState::new();
    form.name = " n ".to_string();
    form.target_url = "http://x".to_string();
    form.port = "nope".to_string();
    let mask = form.to_new_mask();
    assert_eq!(mask.listen_port, 8080);
    assert_eq!(mask.name, "n");
}

#[test]
fn mask_tab_then_backtab_returns() {
    let mut form = MaskFormState::new();
    form.current_field = 2;
    form.next_field();
    form.prev_field();
    assert_eq!(form.current_field, 2);
}

#[test]
fn mask_key_allowed_guards_edits() {
    let mut form = MaskFormState::new();
    form.name = "ü".to_string();
    form.cursor_pos = 1;
    assert!(!mask_key_allowed(&form, key(KeyCode::Char('a'))));
    form.cursor_pos = 2;
    assert!(mask_key_allowed(&form, key(KeyCode::Char('a'))));
    form.current_field = 4;
    form.header_selected_row = 3;
    assert!(mask_key_allowed(&form, key(KeyCode::Char('d'))));
    form.headers = vec![HeaderRow { key: "k".to_string(), value: String::new() }];
    assert!(!mask_key_allowed(&form, key(KeyCode::Char('d'))));
    form.header_selected_row = 0;
    assert!(mask_key_allowed(&form, key(KeyCode::Char('d'))));
}
