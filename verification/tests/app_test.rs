use std::collections::HashMap;

use std::time::Instant;

use apprunner::app::cron_label;
use apprunner::app::{
    app_status_icon, countdown_text, global_max_runtime, handle_template_modal_key, launch_with,
    log_window, modal_key_allowed, navigate, next_run, parse_env_vars, plan_auto_start,
    plan_start, run_separator, selection_after_delete, status_hint, substitute_or_keep, Launch,
    MaskStatus, ModalAction, StartPlan, StatusIcon, TemplateModal, UiSizes, UiState,
};
use apprunner::process::ProcessState;
use apprunner::db::models::AppConfig;
use apprunner::template::TemplateVar;
use apprunner::tui::input::{Action, ActiveTab, FocusMode, KeyCode, KeyInput};

fn app_config(id: i64, name: &str) -> AppConfig {
    AppConfig {
        id,
        name: name.to_string(),
        working_dir: "/tmp".to_string(),
        command: format!("echo {}", id),
        env_vars: "{}".to_string(),
        auto_start: false,
        max_runtime_secs: None,
        interval_seconds: None,
        template_vars: vec![],
        created_at: "2024-01-01".to_string(),
    }
}

fn sizes(apps: usize) -> UiSizes {
    UiSizes { apps, masks: 0, output_lines: None, log_entries: None }
}

fn var(name: &str, default: Option<&str>) -> TemplateVar {
    TemplateVar {
        name: name.to_string(),
        description: String::new(),
        default: default.map(|d| d.to_string()),
    }
}

#[test]
fn test_app_new_creates_valid_state() {
    let ui = UiState::new();
    assert!(ui.running);
    assert_eq!(ui.focus, FocusMode::AppList);
    assert_eq!(ui.selected_index, 0);
    assert_eq!(ui.scroll_offset, 0);
}

#[test]
fn test_navigate_down_wraps() {
    let mut ui = UiState::new();
    let apps = vec![app_config(1, "app1"), app_config(2, "app2")];
    ui.selected_index = 1;
    assert!(navigate(&mut ui, Action::NavigateDown, sizes(apps.len())));
    assert_eq!(ui.selected_index, 0);
}

#[test]
fn test_navigate_up_wraps() {
    let mut ui = UiState::new();
    let apps = vec![app_config(1, "app1"), app_config(2, "app2")];
    ui.selected_index = 0;
    navigate(&mut ui, Action::NavigateUp, sizes(apps.len()));
    assert_eq!(ui.selected_index, 1);
}

#[test]
fn test_focus_mode_transitions() {
    let mut ui = UiState::new();
    let z = sizes(1);
    assert_eq!(ui.focus, FocusMode::AppList);

    navigate(&mut ui, Action::FocusOutput, z);
    assert_eq!(ui.focus, FocusMode::OutputPane);

    navigate(&mut ui, Action::FocusAppList, z);
    assert_eq!(ui.focus, FocusMode::AppList);

    navigate(&mut ui, Action::ShowHelp, z);
    assert_eq!(ui.focus, FocusMode::Help);

    navigate(&mut ui, Action::HideHelp, z);
    assert_eq!(ui.focus, FocusMode::AppList);
}

#[test]
fn test_quit_action() {
    let mut ui = UiState::new();
    assert!(ui.running);
    navigate(&mut ui, Action::Quit, sizes(0));
    assert!(!ui.running);
}

#[test]
fn test_navigate_empty_list() {
    let mut ui = UiState::new();
    navigate(&mut ui, Action::NavigateDown, sizes(0));
    navigate(&mut ui, Action::NavigateUp, sizes(0));
    assert_eq!(ui.selected_index, 0);
}

#[test]
fn test_focus_output_with_empty_list() {
    let mut ui = UiState::new();
    navigate(&mut ui, Action::FocusOutput, sizes(0));
    assert_eq!(ui.focus, FocusMode::AppList);
}

#[test]
fn test_parse_env_vars() {
    let env = parse_env_vars(r#"{"PORT":"3000","HOST":"localhost"}"#);
    assert_eq!(env.get("PORT"), Some(&"3000".to_string()));
    assert_eq!(env.get("HOST"), Some(&"localhost".to_string()));
}

#[test]
fn test_parse_env_vars_empty() {
    let env = parse_env_vars("{}");
    assert!(env.is_empty());
}

#[test]
fn test_parse_env_vars_invalid() {
    let env = parse_env_vars("not json");
    assert!(env.is_empty());
}

// Further cases.

#[test]
fn navigation_is_separate_for_masks() {
    let mut ui = UiState::new();
    let z = UiSizes { apps: 3, masks: 2, output_lines: None, log_entries: None };
    navigate(&mut ui, Action::SwitchToMasks, z);
    assert_eq!(ui.active_tab, ActiveTab::Masks);
    assert_eq!(ui.focus, FocusMode::MaskList);
    navigate(&mut ui, Action::NavigateUp, z);
    assert_eq!(ui.mask_selected_index, 1);
    assert_eq!(ui.selected_index, 0);
    navigate(&mut ui, Action::HideHelp, z);
    assert_eq!(ui.focus, FocusMode::MaskList);
}

#[test]
fn scrolling_stays_within_output() {
    let mut ui = UiState::new();
    let z = UiSizes { apps: 1, masks: 0, output_lines: Some(3), log_entries: None };
    navigate(&mut ui, Action::FocusOutput, z);
    for _ in 0..5 {
        navigate(&mut ui, Action::ScrollDown, z);
    }
    assert_eq!(ui.scroll_offset, 2);
    navigate(&mut ui, Action::ScrollToTop, z);
    assert_eq!(ui.scroll_offset, 0);
    navigate(&mut ui, Action::ScrollToBottom, z);
    assert_eq!(ui.scroll_offset, 2);
    navigate(&mut ui, Action::ScrollUp, z);
    assert_eq!(ui.scroll_offset, 1);
}

#[test]
fn non_navigation_actions_are_left_to_the_caller() {
    let mut ui = UiState::new();
    let before = ui;
    assert!(!navigate(&mut ui, Action::StartApp, sizes(2)));
    assert!(!navigate(&mut ui, Action::Tick, sizes(2)));
    assert_eq!(ui, before);
}

#[test]
fn selection_after_delete_clamps() {
    assert_eq!(selection_after_delete(2, 2), 1);
    assert_eq!(selection_after_delete(0, 0), 0);
    assert_eq!(selection_after_delete(1, 3), 1);
}

#[test]
fn cron_run_counter_wraps_after_ten() {
    assert_eq!(next_run(0), (1, false));
    assert_eq!(next_run(9), (10, false));
    assert_eq!(next_run(10), (1, true));
    assert_eq!(run_separator(3), "\r\n\x1b[90m\u{2500}\u{2500}\u{2500} run #3 \u{2500}\u{2500}\u{2500}\x1b[0m\r\n");
}

#[test]
fn global_max_runtime_reads_setting() {
    assert_eq!(global_max_runtime(None), 18000);
    assert_eq!(global_max_runtime(Some("60".to_string())), 60);
    assert_eq!(global_max_runtime(Some("-1".to_string())), 18000);
    assert_eq!(global_max_runtime(Some("abc".to_string())), 18000);
}

#[test]
fn template_modal_prefills_defaults() {
    let modal = TemplateModal::new(7, vec![var("port", Some("3000")), var("key", None)], true);
    assert_eq!(modal.values, vec!["3000".to_string(), String::new()]);
    assert_eq!(modal.cursor_pos, 4);
    assert!(modal.is_restart);
    assert!(!modal.is_valid());
}

#[test]
fn template_modal_editing_and_submit() {
    let mut modal = TemplateModal::new(7, vec![var("port", Some("3000")), var("key", None)], false);
    assert_eq!(handle_template_modal_key(KeyInput::plain(KeyCode::Tab), &mut modal), ModalAction::Continue);
    assert_eq!(modal.current_field, 1);
    assert_eq!(modal.cursor_pos, 0);
    assert_eq!(handle_template_modal_key(KeyInput::plain(KeyCode::Enter), &mut modal), ModalAction::Continue);
    handle_template_modal_key(KeyInput::plain(KeyCode::Char('s')), &mut modal);
    handle_template_modal_key(KeyInput::plain(KeyCode::Char('k')), &mut modal);
    handle_template_modal_key(KeyInput::plain(KeyCode::Backspace), &mut modal);
    assert_eq!(modal.values[1], "s");
    assert_eq!(handle_template_modal_key(KeyInput::plain(KeyCode::Enter), &mut modal), ModalAction::Submit);
    let values = modal.resolved_values();
    assert_eq!(values.get("port"), Some(&"3000".to_string()));
    assert_eq!(values.get("key"), Some(&"s".to_string()));
    assert_eq!(handle_template_modal_key(KeyInput::plain(KeyCode::Esc), &mut modal), ModalAction::Cancel);
    assert_eq!(handle_template_modal_key(KeyInput::with_ctrl(KeyCode::Char('c')), &mut modal), ModalAction::Cancel);
}

#[test]
fn template_modal_backtab_wraps() {
    let mut modal = TemplateModal::new(1, vec![var("a", Some("x")), var("b", Some("yy"))], false);
    handle_template_modal_key(KeyInput::plain(KeyCode::BackTab), &mut modal);
    assert_eq!(modal.current_field, 1);
    assert_eq!(modal.cursor_pos, 2);
    handle_template_modal_key(KeyInput::plain(KeyCode::Left), &mut modal);
    assert_eq!(modal.cursor_pos, 1);
    handle_template_modal_key(KeyInput::plain(KeyCode::Right), &mut modal);
    handle_template_modal_key(KeyInput::plain(KeyCode::Right), &mut modal);
    assert_eq!(modal.cursor_pos, 2);
}

#[test]
fn plan_start_cases() {
    let mut cron = app_config(1, "job");
    cron.interval_seconds = Some(30);
    assert_eq!(plan_start(&cron), StartPlan::Schedule(30));

    let mut needs = app_config(2, "needs");
    needs.template_vars = vec![var("key", None)];
    assert_eq!(plan_start(&needs), StartPlan::AskValues);

    let mut tmpl = app_config(3, "tmpl");
    tmpl.command = "serve --port {{port}}".to_string();
    tmpl.template_vars = vec![var("port", Some("8080"))];
    assert_eq!(
        plan_start(&tmpl),
        StartPlan::Start(Launch {
            working_dir: "/tmp".to_string(),
            command: "serve --port 8080".to_string(),
            env_vars: "{}".to_string(),
        })
    );

    let plain = app_config(4, "plain");
    assert_eq!(
        plan_start(&plain),
        StartPlan::Start(Launch {
            working_dir: "/tmp".to_string(),
            command: "echo 4".to_string(),
            env_vars: "{}".to_string(),
        })
    );
}

#[test]
fn plan_auto_start_reports_required_input_first() {
    let mut needs = app_config(2, "needs");
    needs.interval_seconds = Some(5);
    needs.template_vars = vec![var("key", None)];
    assert_eq!(
        plan_auto_start(&needs),
        StartPlan::Alert("App 'needs' requires input before starting".to_string())
    );
    let mut cron = app_config(1, "job");
    cron.interval_seconds = None;
    cron.interval_seconds = Some(-1);
    assert_eq!(plan_auto_start(&cron), StartPlan::Schedule(u64::MAX));
}

#[test]
fn substitute_or_keep_keeps_text_with_missing_values() {
    let mut values = HashMap::new();
    values.insert("a".to_string(), "1".to_string());
    assert_eq!(substitute_or_keep("{{a}}-{{b}}", &values), "{{a}}-{{b}}");
    assert_eq!(substitute_or_keep("{{a}}-x", &values), "1-x");
    let app = app_config(9, "n");
    let l = launch_with(&app, &values);
    assert_eq!(l.command, "echo 9");
}

#[test]
fn mask_status_values() {
    assert_ne!(MaskStatus::Active, MaskStatus::Inactive);
    assert_eq!(MaskStatus::Error("x".to_string()), MaskStatus::Error("x".to_string()));
}

#[test]
fn status_icons() {
    let running = ProcessState::Running { pid: 1, started_at: Instant::now() };
    let crashed = ProcessState::Crashed { retries: 2, last_error: String::new() };
    assert_eq!(app_status_icon(true, true, Some(&running), false), StatusIcon::CronRunning);
    assert_eq!(app_status_icon(true, true, None, false), StatusIcon::CronScheduled);
    assert_eq!(app_status_icon(true, false, Some(&crashed), false), StatusIcon::Stopped);
    assert_eq!(app_status_icon(false, false, Some(&running), true), StatusIcon::Running);
    assert_eq!(app_status_icon(false, false, Some(&crashed), false), StatusIcon::Crashed);
    assert_eq!(app_status_icon(false, false, Some(&ProcessState::Attached), false), StatusIcon::Attached);
    assert_eq!(app_status_icon(false, false, None, true), StatusIcon::PendingInput);
    assert_eq!(app_status_icon(false, false, None, false), StatusIcon::Stopped);
}

#[test]
fn countdown_texts() {
    assert_eq!(countdown_text(0), "0s");
    assert_eq!(countdown_text(59), "59s");
    assert_eq!(countdown_text(61), "1m1s");
    assert_eq!(countdown_text(3600), "60m0s");
}

#[test]
fn log_windows() {
    assert_eq!(log_window(0, 0, 10), (0, 0));
    assert_eq!(log_window(0, 5, 10), (0, 5));
    assert_eq!(log_window(3, 20, 10), (3, 13));
    assert_eq!(log_window(15, 20, 10), (10, 20));
}

#[test]
fn status_hints() {
    assert_eq!(
        status_hint(ActiveTab::Masks, FocusMode::MaskLog),
        " 1:Apps [2:Masks] | [j/k]scroll [G]bottom [g]top [Esc]back [q]uit"
    );
    assert!(status_hint(ActiveTab::Apps, FocusMode::AppList).starts_with("[1:Apps] 2:Masks | [s]tart"));
}

#[test]
fn modal_key_allowed_guards_edits() {
    let mut modal = TemplateModal::new(1, vec![var("a", Some("é"))], false);
    assert_eq!(modal.cursor_pos, 2);
    assert!(modal_key_allowed(&modal, KeyInput::plain(KeyCode::Char('x'))));
    modal.cursor_pos = 1;
    assert!(!modal_key_allowed(&modal, KeyInput::plain(KeyCode::Char('x'))));
    assert!(modal_key_allowed(&modal, KeyInput::plain(KeyCode::Backspace)));
    assert!(modal_key_allowed(&modal, KeyInput::plain(KeyCode::Esc)));
    let empty = TemplateModal::new(1, vec![], false);
    assert!(!modal_key_allowed(&empty, KeyInput::plain(KeyCode::Char('x'))));
    assert!(modal_key_allowed(&empty, KeyInput::plain(KeyCode::Tab)));
}

#[test]
fn fresh_modal_resolves_to_the_defaults() {
    let vars = vec![
        TemplateVar { name: "env".to_string(), description: String::new(), default: Some("dev".to_string()) },
        TemplateVar { name: "port".to_string(), description: String::new(), default: Some("80".to_string()) },
    ];
    let modal = TemplateModal::new(1, vars.clone(), false);
    let from_modal = modal.resolved_values();
    let resolved = apprunner::template::resolve_values(&vars, &HashMap::new()).unwrap();
    assert_eq!(from_modal, resolved);
}

#[test]
fn cron_label_shows_run_countdown_due_dash_or_off() {
    assert_eq!(cron_label(true, true, Some(5000), 0), "run");
    assert_eq!(cron_label(false, true, Some(65_000), 0), "1m5s");
    assert_eq!(cron_label(false, true, Some(1000), 1000), "due");
    assert_eq!(cron_label(false, true, None, 0), "\u{2014}");
    assert_eq!(cron_label(false, false, Some(5000), 0), "off");
}
