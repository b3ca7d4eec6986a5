use apprunner::db::models::AppConfig;
use apprunner::tui::form::{
    env_string_to_json, form_key_allowed, handle_form_key, json_to_env_string, FormAction,
    FormField, FormState,
};
use apprunner::tui::input::{KeyCode, KeyInput};

fn key(code: KeyCode) -> KeyInput {
    KeyInput::plain(code)
}

fn key_with_ctrl(code: KeyCode) -> KeyInput {
    KeyInput::with_ctrl(code)
}

#[test]
fn test_form_state_new_creates_empty_form() {
    let form = FormState::new();
    assert_eq!(form.name, "");
    assert_eq!(form.working_dir, "");
    assert_eq!(form.command, "");
    assert_eq!(form.env_vars, "");
    assert!(!form.auto_start);
    assert_eq!(form.max_runtime, "");
    assert!(!form.editing);
    assert_eq!(form.edit_id, None);
    assert_eq!(form.current_field, 0);
    assert_eq!(form.cursor_pos, 0);
    assert!(form.errors.is_empty());
    assert_eq!(form.fields.len(), 7);
}

#[test]
fn test_form_state_from_app_prefills_correctly() {
    let app = AppConfig {
        id: 42,
        name: "my-api".to_string(),
        working_dir: "/home/user/project".to_string(),
        command: "cargo run".to_string(),
        env_vars: r#"{"PORT":"3000","NODE_ENV":"dev"}"#.to_string(),
        auto_start: true,
        max_runtime_secs: Some(300),
        interval_seconds: None,
        template_vars: vec![],
        created_at: "2024-01-01".to_string(),
    };

    let form = FormState::from_app(&app);
    assert_eq!(form.name, "my-api");
    assert_eq!(form.working_dir, "/home/user/project");
    assert_eq!(form.command, "cargo run");
    assert!(form.env_vars.contains("PORT=3000"));
    assert!(form.env_vars.contains("NODE_ENV=dev"));
    assert!(form.auto_start);
    assert_eq!(form.max_runtime, "300");
    assert!(form.editing);
    assert_eq!(form.edit_id, Some(42));
    assert_eq!(form.cursor_pos, 6);
}

#[test]
fn test_next_field_cycles_through_fields() {
    let mut form = FormState::new();
    assert_eq!(form.current_field, 0);
    form.next_field();
    assert_eq!(form.current_field, 1);
    form.next_field();
    assert_eq!(form.current_field, 2);
    form.next_field();
    assert_eq!(form.current_field, 3);
    form.next_field();
    assert_eq!(form.current_field, 4);
    form.next_field();
    assert_eq!(form.current_field, 5);
    form.next_field();
    assert_eq!(form.current_field, 6);
    form.next_field();
    assert_eq!(form.current_field, 0);
}

#[test]
fn test_prev_field_cycles_through_fields() {
    let mut form = FormState::new();
    assert_eq!(form.current_field, 0);
    form.prev_field();
    assert_eq!(form.current_field, 6);
    form.prev_field();
    assert_eq!(form.current_field, 5);
    form.prev_field();
    assert_eq!(form.current_field, 4);
}

#[test]
fn test_insert_char() {
    let mut form = FormState::new();
    form.insert_char('h');
    form.insert_char('i');
    assert_eq!(form.name, "hi");
    assert_eq!(form.cursor_pos, 2);
}

#[test]
fn test_delete_char() {
    let mut form = FormState::new();
    form.name = "hello".to_string();
    form.cursor_pos = 5;
    form.delete_char();
    assert_eq!(form.name, "hell");
    assert_eq!(form.cursor_pos, 4);
    form.delete_char();
    assert_eq!(form.name, "hel");
    assert_eq!(form.cursor_pos, 3);
}

#[test]
fn test_delete_char_at_start_does_nothing() {
    let mut form = FormState::new();
    form.name = "hello".to_string();
    form.cursor_pos = 0;
    form.delete_char();
    assert_eq!(form.name, "hello");
    assert_eq!(form.cursor_pos, 0);
}

#[test]
fn test_cursor_movement() {
    let mut form = FormState::new();
    form.name = "hello".to_string();
    form.cursor_pos = 3;

    form.move_cursor_left();
    assert_eq!(form.cursor_pos, 2);

    form.move_cursor_right();
    assert_eq!(form.cursor_pos, 3);

    form.cursor_pos = 5;
    form.move_cursor_right();
    assert_eq!(form.cursor_pos, 5);

    form.cursor_pos = 0;
    form.move_cursor_left();
    assert_eq!(form.cursor_pos, 0);
}

#[test]
fn test_toggle_auto_start() {
    let mut form = FormState::new();
    assert!(!form.auto_start);
    form.toggle_auto_start();
    assert!(form.auto_start);
    form.toggle_auto_start();
    assert!(!form.auto_start);
}

#[test]
fn test_validate_catches_empty_name() {
    let mut form = FormState::new();
    form.working_dir = "/tmp".to_string();
    form.command = "echo hi".to_string();
    let valid = form.validate();
    assert!(!valid);
    assert!(form.errors.iter().any(|e| e.contains("Name cannot be empty")));
}

#[test]
fn test_validate_catches_invalid_working_dir() {
    let mut form = FormState::new();
    form.name = "test".to_string();
    form.working_dir = "/nonexistent/path/xyz123".to_string();
    form.command = "echo hi".to_string();
    let valid = form.validate();
    assert!(!valid);
    assert!(form.errors.iter().any(|e| e.contains("not found")));
}

#[test]
fn test_validate_catches_bad_max_runtime() {
    let mut form = FormState::new();
    form.name = "test".to_string();
    form.working_dir = "/tmp".to_string();
    form.command = "echo hi".to_string();
    form.max_runtime = "abc".to_string();
    let valid = form.validate();
    assert!(!valid);
    assert!(form.errors.iter().any(|e| e.contains("Max runtime")));
}

#[test]
fn test_validate_catches_negative_max_runtime() {
    let mut form = FormState::new();
    form.name = "test".to_string();
    form.working_dir = "/tmp".to_string();
    form.command = "echo hi".to_string();
    form.max_runtime = "-5".to_string();
    let valid = form.validate();
    assert!(!valid);
    assert!(form.errors.iter().any(|e| e.contains("positive number")));
}

#[test]
fn test_to_new_app_produces_correct_output() {
    let mut form = FormState::new();
    form.name = "my-api".to_string();
    form.working_dir = "/tmp".to_string();
    form.command = "echo hi".to_string();
    form.env_vars = "PORT=3000,NODE_ENV=dev".to_string();
    form.auto_start = true;
    form.max_runtime = "300".to_string();

    let new_app = form.to_new_app();
    assert_eq!(new_app.name, "my-api");
    assert_eq!(new_app.working_dir, "/tmp");
    assert_eq!(new_app.command, "echo hi");
    assert!(new_app.auto_start);
    assert_eq!(new_app.max_runtime_secs, Some(300));

    let parsed: serde_json::Value = serde_json::from_str(&new_app.env_vars).unwrap();
    assert_eq!(parsed["PORT"], "3000");
    assert_eq!(parsed["NODE_ENV"], "dev");
}

#[test]
fn test_env_string_to_json_basic() {
    let json = env_string_to_json("PORT=3000,NODE_ENV=development");
    let parsed: serde_json::Value = serde_json::from_str(&json).unwrap();
    assert_eq!(parsed["PORT"], "3000");
    assert_eq!(parsed["NODE_ENV"], "development");
}

#[test]
fn test_env_string_to_json_empty() {
    let json = env_string_to_json("");
    assert_eq!(json, "{}");
}

#[test]
fn test_env_string_to_json_whitespace() {
    let json = env_string_to_json("  PORT = 3000 , HOST = localhost  ");
    let parsed: serde_json::Value = serde_json::from_str(&json).unwrap();
    assert_eq!(parsed["PORT"], "3000");
    assert_eq!(parsed["HOST"], "localhost");
}

#[test]
fn test_json_to_env_string_roundtrip() {
    let json = r#"{"PORT":"3000","NODE_ENV":"dev"}"#;
    let env_str = json_to_env_string(json);
    assert!(env_str.contains("PORT=3000"));
    assert!(env_str.contains("NODE_ENV=dev"));
}

#[test]
fn test_json_to_env_string_empty() {
    assert_eq!(json_to_env_string("{}"), "");
    assert_eq!(json_to_env_string(""), "");
}

#[test]
fn test_handle_form_key_tab_advances_field() {
    let mut form = FormState::new();
    assert_eq!(form.current_field, 0);
    let action = handle_form_key(key(KeyCode::Tab), &mut form);
    assert_eq!(action, FormAction::Continue);
    assert_eq!(form.current_field, 1);
}

#[test]
fn test_handle_form_key_backtab_goes_back() {
    let mut form = FormState::new();
    form.current_field = 2;
    let action = handle_form_key(key(KeyCode::BackTab), &mut form);
    assert_eq!(action, FormAction::Continue);
    assert_eq!(form.current_field, 1);
}

#[test]
fn test_handle_form_key_esc_returns_cancel() {
    let mut form = FormState::new();
    let action = handle_form_key(key(KeyCode::Esc), &mut form);
    assert_eq!(action, FormAction::Cancel);
}

#[test]
fn test_handle_form_key_enter_returns_save_on_valid() {
    let mut form = FormState::new();
    form.name = "test".to_string();
    form.working_dir = "/tmp".to_string();
    form.command = "echo hi".to_string();
    let action = handle_form_key(key(KeyCode::Enter), &mut form);
    match action {
        FormAction::Save(new_app) => {
            assert_eq!(new_app.name, "test");
        }
        other => panic!("Expected Save, got {:?}", other),
    }
}

#[test]
fn test_handle_form_key_enter_stays_on_invalid() {
    let mut form = FormState::new();
    form.working_dir = "/tmp".to_string();
    form.command = "echo hi".to_string();
    let action = handle_form_key(key(KeyCode::Enter), &mut form);
    assert_eq!(action, FormAction::Continue);
    assert!(!form.errors.is_empty());
}

#[test]
fn test_handle_form_key_space_toggles_autostart() {
    let mut form = FormState::new();
    form.current_field = 4;
    assert!(!form.auto_start);
    let action = handle_form_key(key(KeyCode::Char(' ')), &mut form);
    assert_eq!(action, FormAction::Continue);
    assert!(form.auto_start);
}

#[test]
fn test_handle_form_key_ctrl_b_on_working_dir() {
    let mut form = FormState::new();
    form.current_field = 1;
    let action = handle_form_key(key_with_ctrl(KeyCode::Char('b')), &mut form);
    assert_eq!(action, FormAction::OpenFileBrowser);
}

#[test]
fn test_handle_form_key_ctrl_b_on_other_field() {
    let mut form = FormState::new();
    form.current_field = 0;
    let action = handle_form_key(key_with_ctrl(KeyCode::Char('b')), &mut form);
    assert_eq!(action, FormAction::Continue);
}

#[test]
fn test_handle_form_key_char_inserts() {
    let mut form = FormState::new();
    handle_form_key(key(KeyCode::Char('a')), &mut form);
    handle_form_key(key(KeyCode::Char('b')), &mut form);
    assert_eq!(form.name, "ab");
}

#[test]
fn test_handle_form_key_backspace_deletes() {
    let mut form = FormState::new();
    form.name = "abc".to_string();
    form.cursor_pos = 3;
    handle_form_key(key(KeyCode::Backspace), &mut form);
    assert_eq!(form.name, "ab");
}

#[test]
fn test_insert_char_on_autostart_field_does_nothing() {
    let mut form = FormState::new();
    form.current_field = 4;
    form.insert_char('x');
    assert!(!form.auto_start);
}

#[test]
fn test_valid_form_passes_validation() {
    let mut form = FormState::new();
    form.name = "test-app".to_string();
    form.working_dir = "/tmp".to_string();
    form.command = "echo hello".to_string();
    form.max_runtime = "60".to_string();
    assert!(form.validate());
    assert!(form.errors.is_empty());
}

// Further cases.

#[test]
fn tab_then_backtab_returns_to_same_field() {
    let mut form = FormState::new();
    form.current_field = 3;
    form.next_field();
    form.prev_field();
    assert_eq!(form.current_field, 3);
    assert_eq!(form.fields[3], FormField::EnvVars);
}

#[test]
fn insert_then_backspace_restores_text() {
    let mut form = FormState::new();
    form.name = "abc".to_string();
    form.cursor_pos = 1;
    form.insert_char('Z');
    assert_eq!(form.name, "aZbc");
    form.delete_char();
    assert_eq!(form.name, "abc");
    assert_eq!(form.cursor_pos, 1);
}

#[test]
fn insert_clamps_cursor_past_end() {
    let mut form = FormState::new();
    form.name = "ab".to_string();
    form.cursor_pos = 10;
    form.insert_char('c');
    assert_eq!(form.name, "abc");
    assert_eq!(form.cursor_pos, 3);
}

#[test]
fn env_string_skips_pairs_without_key_or_equals() {
    let json = env_string_to_json("A=1,novalue,=2, B = x=y ");
    let parsed: serde_json::Value = serde_json::from_str(&json).unwrap();
    assert_eq!(parsed["A"], "1");
    assert_eq!(parsed["B"], "x=y");
    assert!(parsed.get("novalue").is_none());
    assert_eq!(parsed.as_object().unwrap().len(), 2);
}

#[test]
fn validate_reports_zero_interval() {
    let mut form = FormState::new();
    form.name = "job".to_string();
    form.working_dir = "/tmp".to_string();
    form.command = "echo hi".to_string();
    form.interval = "0".to_string();
    assert!(!form.validate());
    assert!(form.errors.iter().any(|e| e.contains("Interval")));
}

#[test]
fn detect_template_vars_from_fields() {
    let mut form = FormState::new();
    form.command = "run --port {{port}}".to_string();
    form.working_dir = "/srv/{{app}}".to_string();
    form.detect_template_vars();
    let names: Vec<&str> = form.template_vars.iter().map(|v| v.name.as_str()).collect();
    assert_eq!(names, vec!["port", "app"]);
}

#[test]
fn form_key_allowed_guards_edits() {
    let mut form = FormState::new();
    form.name = "né".to_string();
    form.cursor_pos = 3;
    assert!(form_key_allowed(&form, key(KeyCode::Char('x'))));
    assert!(form_key_allowed(&form, key(KeyCode::Backspace)) == false);
    form.cursor_pos = 2;
    assert!(!form_key_allowed(&form, key(KeyCode::Char('x'))));
    assert!(form_key_allowed(&form, key(KeyCode::Backspace)));
    form.current_field = 9;
    assert!(!form_key_allowed(&form, key(KeyCode::Tab)));
    assert!(form_key_allowed(&form, key_with_ctrl(KeyCode::Char('c'))));
}

#[test]
fn current_field_value_mut_edits_focused_field() {
    let mut form = FormState::new();
    form.current_field = 2;
    form.current_field_value_mut().push_str("ls -la");
    assert_eq!(form.command, "ls -la");
    form.current_field = 4;
    form.current_field_value_mut().push('x');
    assert_eq!(form.name, "x");
}
