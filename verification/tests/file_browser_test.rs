use apprunner::tui::file_browser::{handle_browser_key, BrowserAction, FileBrowser};
use apprunner::tui::input::{KeyCode, KeyInput};

fn key(code: KeyCode) -> KeyInput {
    KeyInput::plain(code)
}

fn listing(names: &[&str], dir: &str) -> Vec<(String, String)> {
    names.iter().map(|n| (format!("{}/{}", dir, n), n.to_string())).collect()
}

fn browser_with(names: &[&str]) -> FileBrowser {
    let mut b = FileBrowser::new("/work", true, "/home/u");
    b.refresh_entries(listing(names, "/work"));
    b
}

#[test]
fn new_starts_at_given_directory_or_home() {
    let b = FileBrowser::new("/srv", true, "/home/u");
    assert_eq!(b.current_dir, "/srv");
    assert!(b.visible);
    assert!(b.entries.is_empty());
    assert_eq!(FileBrowser::new("", true, "/home/u").current_dir, "/home/u");
    assert_eq!(FileBrowser::new("/no/such", false, "/home/u").current_dir, "/home/u");
}

#[test]
fn hidden_directories_sort_last() {
    let b = browser_with(&["visible", ".hidden", "another", ".secret"]);
    assert_eq!(
        b.entries,
        vec!["/work/another", "/work/visible", "/work/.hidden", "/work/.secret"]
    );
}

#[test]
fn sort_ignores_ascii_case_and_is_stable() {
    let b = browser_with(&["beta", "Alpha", "alpha", "Gamma"]);
    assert_eq!(
        b.entries,
        vec!["/work/Alpha", "/work/alpha", "/work/beta", "/work/Gamma"]
    );
}

#[test]
fn refresh_clamps_selection() {
    let mut b = browser_with(&["a", "b", "c"]);
    b.selected_index = 2;
    b.refresh_entries(listing(&["a"], "/work"));
    assert_eq!(b.selected_index, 0);
    b.refresh_entries(vec![]);
    assert_eq!(b.selected_index, 0);
}

#[test]
fn moving_wraps_both_ways() {
    let mut b = browser_with(&["a", "b"]);
    b.selected_index = 1;
    b.move_down();
    assert_eq!(b.selected_index, 0);
    b.move_up();
    assert_eq!(b.selected_index, 1);
}

#[test]
fn enter_selected_moves_into_entry() {
    let mut b = browser_with(&["sub"]);
    assert!(b.enter_selected());
    assert_eq!(b.current_dir, "/work/sub");
    assert_eq!(b.selected_index, 0);
    assert!(b.entries.is_empty());
    assert!(!b.enter_selected());
}

#[test]
fn go_up_stops_at_root() {
    let mut b = FileBrowser::new("/work/sub", true, "/home/u");
    assert!(b.go_up());
    assert_eq!(b.current_dir, "/work");
    assert!(b.go_up());
    assert_eq!(b.current_dir, "/");
    assert!(!b.go_up());
    assert_eq!(b.current_dir, "/");
}

#[test]
fn keys_drive_the_browser() {
    let mut b = browser_with(&["a", "b"]);
    assert_eq!(handle_browser_key(key(KeyCode::Char('j')), &mut b), BrowserAction::Continue);
    assert_eq!(b.selected_index, 1);
    assert_eq!(handle_browser_key(key(KeyCode::Up), &mut b), BrowserAction::Continue);
    assert_eq!(b.selected_index, 0);
    assert_eq!(
        handle_browser_key(key(KeyCode::Char('.')), &mut b),
        BrowserAction::Select("/work".to_string())
    );
    assert_eq!(handle_browser_key(key(KeyCode::Esc), &mut b), BrowserAction::Cancel);
    assert_eq!(handle_browser_key(key(KeyCode::Char('q')), &mut b), BrowserAction::Cancel);
    assert_eq!(handle_browser_key(key(KeyCode::Char('l')), &mut b), BrowserAction::Continue);
    assert_eq!(b.current_dir, "/work/a");
    assert_eq!(handle_browser_key(key(KeyCode::Backspace), &mut b), BrowserAction::Continue);
    assert_eq!(b.current_dir, "/work");
}

#[test]
fn selected_entry_reads_selection() {
    let b = browser_with(&["x"]);
    assert_eq!(b.selected_entry(), Some(&"/work/x".to_string()));
    assert_eq!(b.select_current(), "/work");
}

fn home() -> String {
    dirs::home_dir()
        .map(|h| h.to_string_lossy().into_owned())
        .unwrap_or_else(|| "/".to_string())
}

fn open(start: &str) -> FileBrowser {
    FileBrowser::new(start, std::path::Path::new(start).is_dir(), &home())
}

#[test]
fn test_new_with_empty_string_starts_at_home() {
    let browser = open("");
    assert_eq!(browser.current_dir, home());
}

#[test]
fn test_new_with_invalid_path_falls_back_to_home() {
    let browser = open("/this/path/definitely/does/not/exist/xyz123");
    assert_eq!(browser.current_dir, home());
}

#[test]
fn test_go_up_from_root_stays_at_root() {
    let mut browser = open("/");
    assert_eq!(browser.current_dir, "/");
    browser.go_up();
    assert_eq!(browser.current_dir, "/");
}

#[test]
fn test_handle_browser_key_esc_cancels() {
    let mut browser = open("/tmp");
    let action = handle_browser_key(key(KeyCode::Esc), &mut browser);
    assert_eq!(action, BrowserAction::Cancel);
}

fn scratch_dir() -> (tempfile::TempDir, String) {
    let tmp = tempfile::tempdir().unwrap();
    let path = tmp.path().to_string_lossy().into_owned();
    (tmp, path)
}

fn open_with(dir: &str, names: &[&str]) -> FileBrowser {
    let mut b = FileBrowser::new(dir, true, &home());
    b.refresh_entries(listing(names, dir));
    b
}

#[test]
fn test_new_with_valid_path() {
    let (_tmp, dir) = scratch_dir();
    let browser = open(&dir);
    assert_eq!(browser.current_dir, dir);
    assert!(browser.visible);
}

#[test]
fn test_refresh_entries_only_shows_directories() {
    let (_tmp, dir) = scratch_dir();
    let browser = open_with(&dir, &["dir_a", "dir_b"]);
    assert_eq!(browser.entries.len(), 2);
    assert!(browser.entries.iter().all(|p| p.starts_with(&dir)));
}

#[test]
fn test_move_down_wraps() {
    let (_tmp, dir) = scratch_dir();
    let mut browser = open_with(&dir, &["a", "b"]);
    assert_eq!(browser.entries.len(), 2);
    browser.selected_index = 1;
    browser.move_down();
    assert_eq!(browser.selected_index, 0);
}

#[test]
fn test_move_up_wraps() {
    let (_tmp, dir) = scratch_dir();
    let mut browser = open_with(&dir, &["a", "b"]);
    assert_eq!(browser.entries.len(), 2);
    browser.selected_index = 0;
    browser.move_up();
    assert_eq!(browser.selected_index, 1);
}

#[test]
fn test_enter_selected_changes_dir() {
    let (_tmp, dir) = scratch_dir();
    let mut browser = open_with(&dir, &["subdir"]);
    assert!(!browser.entries.is_empty());
    let subdir_idx = browser
        .entries
        .iter()
        .position(|p| p.ends_with("/subdir"))
        .unwrap();
    browser.selected_index = subdir_idx;
    browser.enter_selected();
    assert_eq!(browser.current_dir, format!("{}/subdir", dir));
}

#[test]
fn test_go_up_from_subdirectory() {
    let (_tmp, dir) = scratch_dir();
    let sub = format!("{}/subdir", dir);
    let mut browser = FileBrowser::new(&sub, true, &home());
    assert_eq!(browser.current_dir, sub);
    browser.go_up();
    assert_eq!(browser.current_dir, dir);
}

#[test]
fn test_select_current_returns_current_dir() {
    let (_tmp, dir) = scratch_dir();
    let browser = open(&dir);
    assert_eq!(browser.select_current(), dir);
}

#[test]
fn test_hidden_directories_sorted_last() {
    let (_tmp, dir) = scratch_dir();
    let browser = open_with(&dir, &["visible", ".hidden", "another", ".secret"]);
    let names: Vec<String> = browser
        .entries
        .iter()
        .map(|p| p.rsplit('/').next().unwrap().to_string())
        .collect();
    assert_eq!(names, vec!["another", "visible", ".hidden", ".secret"]);
}

#[test]
fn test_handle_browser_key_j_moves_down() {
    let (_tmp, dir) = scratch_dir();
    let mut browser = open_with(&dir, &["a", "b"]);
    assert_eq!(browser.selected_index, 0);
    let action = handle_browser_key(key(KeyCode::Char('j')), &mut browser);
    assert_eq!(action, BrowserAction::Continue);
    assert_eq!(browser.selected_index, 1);
}

#[test]
fn test_handle_browser_key_dot_selects() {
    let (_tmp, dir) = scratch_dir();
    let mut browser = open(&dir);
    let action = handle_browser_key(key(KeyCode::Char('.')), &mut browser);
    assert_eq!(action, BrowserAction::Select(dir));
}
