use apprunner::tui::input::{handle_key_event, Action, FocusMode, KeyCode, KeyInput};

fn key(code: KeyCode) -> KeyInput {
    KeyInput::plain(code)
}

fn key_with_ctrl(code: KeyCode) -> KeyInput {
    KeyInput::with_ctrl(code)
}

#[test]
fn test_ctrl_c_always_quits() {
    let ev = key_with_ctrl(KeyCode::Char('c'));
    assert_eq!(handle_key_event(ev, &FocusMode::AppList), Action::Quit);
    assert_eq!(handle_key_event(ev, &FocusMode::OutputPane), Action::Quit);
    assert_eq!(handle_key_event(ev, &FocusMode::Help), Action::Quit);
    assert_eq!(handle_key_event(ev, &FocusMode::MaskList), Action::Quit);
    assert_eq!(handle_key_event(ev, &FocusMode::MaskLog), Action::Quit);
}

#[test]
fn test_app_list_navigation() {
    assert_eq!(handle_key_event(key(KeyCode::Char('j')), &FocusMode::AppList), Action::NavigateDown);
    assert_eq!(handle_key_event(key(KeyCode::Char('k')), &FocusMode::AppList), Action::NavigateUp);
    assert_eq!(handle_key_event(key(KeyCode::Down), &FocusMode::AppList), Action::NavigateDown);
    assert_eq!(handle_key_event(key(KeyCode::Up), &FocusMode::AppList), Action::NavigateUp);
}

#[test]
fn test_app_list_actions() {
    assert_eq!(handle_key_event(key(KeyCode::Char('s')), &FocusMode::AppList), Action::StartApp);
    assert_eq!(handle_key_event(key(KeyCode::Char('x')), &FocusMode::AppList), Action::StopApp);
    assert_eq!(handle_key_event(key(KeyCode::Char('r')), &FocusMode::AppList), Action::RestartApp);
    assert_eq!(handle_key_event(key(KeyCode::Char('a')), &FocusMode::AppList), Action::AttachApp);
    assert_eq!(handle_key_event(key(KeyCode::Char('n')), &FocusMode::AppList), Action::NewApp);
    assert_eq!(handle_key_event(key(KeyCode::Char('e')), &FocusMode::AppList), Action::EditApp);
    assert_eq!(handle_key_event(key(KeyCode::Char('d')), &FocusMode::AppList), Action::DeleteApp);
}

#[test]
fn test_app_list_focus_and_quit() {
    assert_eq!(handle_key_event(key(KeyCode::Enter), &FocusMode::AppList), Action::FocusOutput);
    assert_eq!(handle_key_event(key(KeyCode::Char('q')), &FocusMode::AppList), Action::Quit);
    assert_eq!(handle_key_event(key(KeyCode::Char('?')), &FocusMode::AppList), Action::ShowHelp);
}

#[test]
fn test_app_list_tab_switching() {
    assert_eq!(handle_key_event(key(KeyCode::Char('1')), &FocusMode::AppList), Action::SwitchToApps);
    assert_eq!(handle_key_event(key(KeyCode::Char('2')), &FocusMode::AppList), Action::SwitchToMasks);
}

#[test]
fn test_output_pane_scrolling() {
    assert_eq!(handle_key_event(key(KeyCode::Char('j')), &FocusMode::OutputPane), Action::ScrollDown);
    assert_eq!(handle_key_event(key(KeyCode::Char('k')), &FocusMode::OutputPane), Action::ScrollUp);
    assert_eq!(handle_key_event(key(KeyCode::Char('G')), &FocusMode::OutputPane), Action::ScrollToBottom);
    assert_eq!(handle_key_event(key(KeyCode::Char('g')), &FocusMode::OutputPane), Action::ScrollToTop);
}

#[test]
fn test_output_pane_escape_and_quit() {
    assert_eq!(handle_key_event(key(KeyCode::Esc), &FocusMode::OutputPane), Action::FocusAppList);
    assert_eq!(handle_key_event(key(KeyCode::Char('q')), &FocusMode::OutputPane), Action::Quit);
}

#[test]
fn test_help_mode_dismiss() {
    assert_eq!(handle_key_event(key(KeyCode::Esc), &FocusMode::Help), Action::HideHelp);
    assert_eq!(handle_key_event(key(KeyCode::Char('q')), &FocusMode::Help), Action::HideHelp);
    assert_eq!(handle_key_event(key(KeyCode::Char('?')), &FocusMode::Help), Action::HideHelp);
}

#[test]
fn test_mask_list_navigation() {
    assert_eq!(handle_key_event(key(KeyCode::Char('j')), &FocusMode::MaskList), Action::NavigateDown);
    assert_eq!(handle_key_event(key(KeyCode::Char('k')), &FocusMode::MaskList), Action::NavigateUp);
}

#[test]
fn test_mask_list_actions() {
    assert_eq!(handle_key_event(key(KeyCode::Char('s')), &FocusMode::MaskList), Action::ActivateMask);
    assert_eq!(handle_key_event(key(KeyCode::Char('x')), &FocusMode::MaskList), Action::DeactivateMask);
    assert_eq!(handle_key_event(key(KeyCode::Char('n')), &FocusMode::MaskList), Action::NewMask);
    assert_eq!(handle_key_event(key(KeyCode::Char('e')), &FocusMode::MaskList), Action::EditMask);
    assert_eq!(handle_key_event(key(KeyCode::Char('d')), &FocusMode::MaskList), Action::DeleteMask);
    assert_eq!(handle_key_event(key(KeyCode::Enter), &FocusMode::MaskList), Action::FocusMaskLog);
}

#[test]
fn test_mask_list_tab_switching() {
    assert_eq!(handle_key_event(key(KeyCode::Char('1')), &FocusMode::MaskList), Action::SwitchToApps);
    assert_eq!(handle_key_event(key(KeyCode::Char('2')), &FocusMode::MaskList), Action::SwitchToMasks);
}

#[test]
fn test_mask_log_scrolling() {
    assert_eq!(handle_key_event(key(KeyCode::Char('j')), &FocusMode::MaskLog), Action::ScrollDown);
    assert_eq!(handle_key_event(key(KeyCode::Char('k')), &FocusMode::MaskLog), Action::ScrollUp);
    assert_eq!(handle_key_event(key(KeyCode::Char('G')), &FocusMode::MaskLog), Action::ScrollToBottom);
    assert_eq!(handle_key_event(key(KeyCode::Char('g')), &FocusMode::MaskLog), Action::ScrollToTop);
}

#[test]
fn test_mask_log_escape() {
    assert_eq!(handle_key_event(key(KeyCode::Esc), &FocusMode::MaskLog), Action::FocusMaskList);
}

#[test]
fn test_unknown_keys_return_none() {
    assert_eq!(handle_key_event(key(KeyCode::Char('z')), &FocusMode::AppList), Action::Nothing);
    assert_eq!(handle_key_event(key(KeyCode::Char('m')), &FocusMode::OutputPane), Action::Nothing);
    assert_eq!(handle_key_event(key(KeyCode::Char('a')), &FocusMode::Help), Action::Nothing);
    assert_eq!(handle_key_event(key(KeyCode::Char('z')), &FocusMode::MaskList), Action::Nothing);
    assert_eq!(handle_key_event(key(KeyCode::Char('m')), &FocusMode::MaskLog), Action::Nothing);
}

// Further cases.

#[test]
fn ctrl_c_quits_in_form_modes_too() {
    let ev = key_with_ctrl(KeyCode::Char('c'));
    assert_eq!(handle_key_event(ev, &FocusMode::Form), Action::Quit);
    assert_eq!(handle_key_event(ev, &FocusMode::MaskForm), Action::Quit);
}

#[test]
fn form_modes_ignore_list_keys() {
    assert_eq!(handle_key_event(key(KeyCode::Char('q')), &FocusMode::Form), Action::Nothing);
    assert_eq!(handle_key_event(key(KeyCode::Char('j')), &FocusMode::MaskForm), Action::Nothing);
}

#[test]
fn option_keys_on_app_list() {
    assert_eq!(handle_key_event(key(KeyCode::Char('S')), &FocusMode::AppList), Action::StartAppWithOptions);
    assert_eq!(handle_key_event(key(KeyCode::Char('R')), &FocusMode::AppList), Action::RestartAppWithOptions);
}
