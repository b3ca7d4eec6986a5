//! Vim-like keybinding handling and input dispatch.

use vstd::prelude::*;

verus! {

/// A key, as the terminal reports it.
#[derive(Debug, Clone, Copy, PartialEq, Eq, Structural)]
pub enum KeyCode {
    Char(char),
    Enter,
    Esc,
    Tab,
    BackTab,
    Backspace,
    Left,
    Right,
    Up,
    Down,
    /// Any key these bindings do not name.
    Other,
}

/// A key press: the key and whether Control and Shift were held.
#[derive(Debug, Clone, Copy, PartialEq, Eq, Structural)]
pub struct KeyInput {
    pub code: KeyCode,
    pub ctrl: bool,
    pub shift: bool,
}

impl KeyInput {
    /// A key pressed without modifiers.
    pub fn plain(code: KeyCode) -> (k: KeyInput)
        ensures
            k == (KeyInput { code: code, ctrl: false, shift: false }),
    {
        KeyInput { code, ctrl: false, shift: false }
    }

    /// A key pressed with Control.
    pub fn with_ctrl(code: KeyCode) -> (k: KeyInput)
        ensures
            k == (KeyInput { code: code, ctrl: true, shift: false }),
    {
        KeyInput { code, ctrl: true, shift: false }
    }
}

/// Which panel/mode currently has focus.
#[derive(Debug, Clone, Copy, PartialEq, Eq, Structural)]
pub enum FocusMode {
    AppList,
    OutputPane,
    Help,
    Form,
    MaskList,
    MaskLog,
    MaskForm,
}

/// Which tab is currently active.
#[derive(Debug, Clone, Copy, PartialEq, Eq, Structural)]
pub enum ActiveTab {
    Apps,
    Masks,
}

/// Actions that can be dispatched from key events.
#[derive(Debug, Clone, Copy, PartialEq, Eq, Structural)]
pub enum Action {
    Quit,
    NavigateUp,
    NavigateDown,
    StartApp,
    StartAppWithOptions,
    StopApp,
    RestartApp,
    RestartAppWithOptions,
    AttachApp,
    NewApp,
    EditApp,
    DeleteApp,
    FocusOutput,
    FocusAppList,
    ScrollUp,
    ScrollDown,
    ScrollToTop,
    ScrollToBottom,
    ShowHelp,
    HideHelp,
    Confirm,
    Cancel,
    Tick,
    // Tab switching
    SwitchToApps,
    SwitchToMasks,
    // Mask actions
    ActivateMask,
    DeactivateMask,
    NewMask,
    EditMask,
    DeleteMask,
    FocusMaskLog,
    FocusMaskList,
    Nothing,
}

/// Whether the key is Ctrl+C.
pub open spec fn is_ctrl_c(key: KeyInput) -> bool {
    key.ctrl && key.code == KeyCode::Char('c')
}

/// The binding of the app list.
pub open spec fn app_list_action(code: KeyCode) -> Action {
    match code {
        KeyCode::Char('j') | KeyCode::Down => Action::NavigateDown,
        KeyCode::Char('k') | KeyCode::Up => Action::NavigateUp,
        KeyCode::Char('s') => Action::StartApp,
        KeyCode::Char('S') => Action::StartAppWithOptions,
        KeyCode::Char('x') => Action::StopApp,
        KeyCode::Char('r') => Action::RestartApp,
        KeyCode::Char('R') => Action::RestartAppWithOptions,
        KeyCode::Char('a') => Action::AttachApp,
        KeyCode::Char('n') => Action::NewApp,
        KeyCode::Char('e') => Action::EditApp,
        KeyCode::Char('d') => Action::DeleteApp,
        KeyCode::Enter => Action::FocusOutput,
        KeyCode::Char('q') => Action::Quit,
        KeyCode::Char('?') => Action::ShowHelp,
        KeyCode::Char('1') => Action::SwitchToApps,
        KeyCode::Char('2') => Action::SwitchToMasks,
        _ => Action::Nothing,
    }
}

/// The binding of a scrolling pane (output or mask log); `back` is where Esc
/// returns focus.
pub open spec fn pane_action(code: KeyCode, back: Action) -> Action {
    match code {
        KeyCode::Char('j') | KeyCode::Down => Action::ScrollDown,
        KeyCode::Char('k') | KeyCode::Up => Action::ScrollUp,
        KeyCode::Char('G') => Action::ScrollToBottom,
        KeyCode::Char('g') => Action::ScrollToTop,
        KeyCode::Esc => back,
        KeyCode::Char('q') => Action::Quit,
        _ => Action::Nothing,
    }
}

/// The binding of the help overlay.
pub open spec fn help_action(code: KeyCode) -> Action {
    match code {
        KeyCode::Esc | KeyCode::Char('q') | KeyCode::Char('?') => Action::HideHelp,
        _ => Action::Nothing,
    }
}

/// The binding of the mask list.
pub open spec fn mask_list_action(code: KeyCode) -> Action {
    match code {
        KeyCode::Char('j') | KeyCode::Down => Action::NavigateDown,
        KeyCode::Char('k') | KeyCode::Up => Action::NavigateUp,
        KeyCode::Char('s') => Action::ActivateMask,
        KeyCode::Char('x') => Action::DeactivateMask,
        KeyCode::Char('n') => Action::NewMask,
        KeyCode::Char('e') => Action::EditMask,
        KeyCode::Char('d') => Action::DeleteMask,
        KeyCode::Enter => Action::FocusMaskLog,
        KeyCode::Char('q') => Action::Quit,
        KeyCode::Char('?') => Action::ShowHelp,
        KeyCode::Char('1') => Action::SwitchToApps,
        KeyCode::Char('2') => Action::SwitchToMasks,
        _ => Action::Nothing,
    }
}

/// The action a key maps to in a focus mode. Ctrl+C quits everywhere; the
/// forms handle their own keys.
pub open spec fn key_action(key: KeyInput, mode: FocusMode) -> Action {
    if is_ctrl_c(key) {
        Action::Quit
    } else {
        match mode {
            FocusMode::AppList => app_list_action(key.code),
            FocusMode::OutputPane => pane_action(key.code, Action::FocusAppList),
            FocusMode::Help => help_action(key.code),
            FocusMode::Form => Action::Nothing,
            FocusMode::MaskList => mask_list_action(key.code),
            FocusMode::MaskLog => pane_action(key.code, Action::FocusMaskList),
            FocusMode::MaskForm => Action::Nothing,
        }
    }
}

/// Map a key event to an action based on the current focus mode.
pub fn handle_key_event(key: KeyInput, mode: &FocusMode) -> (a: Action)
    ensures
        a == key_action(key, *mode),
{
    if key.ctrl && key.code == KeyCode::Char('c') {
        return Action::Quit;
    }
    match mode {
        FocusMode::AppList => handle_app_list_key(key),
        FocusMode::OutputPane => handle_output_pane_key(key),
        FocusMode::Help => handle_help_key(key),
        FocusMode::Form => Action::Nothing,
        FocusMode::MaskList => handle_mask_list_key(key),
        FocusMode::MaskLog => handle_mask_log_key(key),
        FocusMode::MaskForm => Action::Nothing,
    }
}

fn handle_app_list_key(key: KeyInput) -> (a: Action)
    ensures
        a == app_list_action(key.code),
{
    match key.code {
        KeyCode::Char('j') | KeyCode::Down => Action::NavigateDown,
        KeyCode::Char('k') | KeyCode::Up => Action::NavigateUp,
        KeyCode::Char('s') => Action::StartApp,
        KeyCode::Char('S') => Action::StartAppWithOptions,
        KeyCode::Char('x') => Action::StopApp,
        KeyCode::Char('r') => Action::RestartApp,
        KeyCode::Char('R') => Action::RestartAppWithOptions,
        KeyCode::Char('a') => Action::AttachApp,
        KeyCode::Char('n') => Action::NewApp,
        KeyCode::Char('e') => Action::EditApp,
        KeyCode::Char('d') => Action::DeleteApp,
        KeyCode::Enter => Action::FocusOutput,
        KeyCode::Char('q') => Action::Quit,
        KeyCode::Char('?') => Action::ShowHelp,
        KeyCode::Char('1') => Action::SwitchToApps,
        KeyCode::Char('2') => Action::SwitchToMasks,
        _ => Action::Nothing,
    }
}

fn handle_output_pane_key(key: KeyInput) -> (a: Action)
    ensures
        a == pane_action(key.code, Action::FocusAppList),
{
    match key.code {
        KeyCode::Char('j') | KeyCode::Down => Action::ScrollDown,
        KeyCode::Char('k') | KeyCode::Up => Action::ScrollUp,
        KeyCode::Char('G') => Action::ScrollToBottom,
        KeyCode::Char('g') => Action::ScrollToTop,
        KeyCode::Esc => Action::FocusAppList,
        KeyCode::Char('q') => Action::Quit,
        _ => Action::Nothing,
    }
}

fn handle_help_key(key: KeyInput) -> (a: Action)
    ensures
        a == help_action(key.code),
{
    match key.code {
        KeyCode::Esc | KeyCode::Char('q') | KeyCode::Char('?') => Action::HideHelp,
        _ => Action::Nothing,
    }
}

fn handle_mask_list_key(key: KeyInput) -> (a: Action)
    ensures
        a == mask_list_action(key.code),
{
    match key.code {
        KeyCode::Char('j') | KeyCode::Down => Action::NavigateDown,
        KeyCode::Char('k') | KeyCode::Up => Action::NavigateUp,
        KeyCode::Char('s') => Action::ActivateMask,
        KeyCode::Char('x') => Action::DeactivateMask,
        KeyCode::Char('n') => Action::NewMask,
        KeyCode::Char('e') => Action::EditMask,
        KeyCode::Char('d') => Action::DeleteMask,
        KeyCode::Enter => Action::FocusMaskLog,
        KeyCode::Char('q') => Action::Quit,
        KeyCode::Char('?') => Action::ShowHelp,
        KeyCode::Char('1') => Action::SwitchToApps,
        KeyCode::Char('2') => Action::SwitchToMasks,
        _ => Action::Nothing,
    }
}

fn handle_mask_log_key(key: KeyInput) -> (a: Action)
    ensures
        a == pane_action(key.code, Action::FocusMaskList),
{
    match key.code {
        KeyCode::Char('j') | KeyCode::Down => Action::ScrollDown,
        KeyCode::Char('k') | KeyCode::Up => Action::ScrollUp,
        KeyCode::Char('G') => Action::ScrollToBottom,
        KeyCode::Char('g') => Action::ScrollToTop,
        KeyCode::Esc => Action::FocusMaskList,
        KeyCode::Char('q') => Action::Quit,
        _ => Action::Nothing,
    }
}

/// A law of the key bindings: in every focus mode the Down arrow does what
/// `j` does and the Up arrow what `k` does, whatever modifiers are held. In
/// the lists they move the selection down and up, and in the panes they
/// scroll down and up.
pub proof fn lemma_arrows_match_vim_keys(mode: FocusMode, ctrl: bool, shift: bool)
    ensures
        key_action(KeyInput { code: KeyCode::Down, ctrl, shift }, mode) == key_action(
            KeyInput { code: KeyCode::Char('j'), ctrl, shift },
            mode,
        ),
        key_action(KeyInput { code: KeyCode::Up, ctrl, shift }, mode) == key_action(
            KeyInput { code: KeyCode::Char('k'), ctrl, shift },
            mode,
        ),
        (mode == FocusMode::AppList || mode == FocusMode::MaskList) ==> key_action(
            KeyInput { code: KeyCode::Down, ctrl, shift },
            mode,
        ) == Action::NavigateDown && key_action(KeyInput { code: KeyCode::Up, ctrl, shift }, mode)
            == Action::NavigateUp,
        (mode == FocusMode::OutputPane || mode == FocusMode::MaskLog) ==> key_action(
            KeyInput { code: KeyCode::Down, ctrl, shift },
            mode,
        ) == Action::ScrollDown && key_action(KeyInput { code: KeyCode::Up, ctrl, shift }, mode)
            == Action::ScrollUp,
{
}

/// A law of the key bindings, as the key table documents them: in the app
/// list `s`, `x`, `r`, `a`, `n`, `e`, `d`, Enter, `q` and `?` start, stop,
/// restart, attach, create, edit, delete, show the output, quit and show
/// help; in the mask list `s`, `x`, `n`, `e`, `d` and Enter activate,
/// deactivate, create, edit, delete and show the log; in a pane `G` and `g`
/// jump to the bottom and top and Esc returns to its list.
pub proof fn lemma_documented_keys(ctrl: bool, shift: bool)
    ensures
        ({
            let k = |c: KeyCode| KeyInput { code: c, ctrl, shift };
            &&& key_action(k(KeyCode::Char('s')), FocusMode::AppList) == Action::StartApp
            &&& key_action(k(KeyCode::Char('x')), FocusMode::AppList) == Action::StopApp
            &&& key_action(k(KeyCode::Char('r')), FocusMode::AppList) == Action::RestartApp
            &&& key_action(k(KeyCode::Char('a')), FocusMode::AppList) == Action::AttachApp
            &&& key_action(k(KeyCode::Char('n')), FocusMode::AppList) == Action::NewApp
            &&& key_action(k(KeyCode::Char('e')), FocusMode::AppList) == Action::EditApp
            &&& key_action(k(KeyCode::Char('d')), FocusMode::AppList) == Action::DeleteApp
            &&& key_action(k(KeyCode::Enter), FocusMode::AppList) == Action::FocusOutput
            &&& key_action(k(KeyCode::Char('q')), FocusMode::AppList) == Action::Quit
            &&& key_action(k(KeyCode::Char('?')), FocusMode::AppList) == Action::ShowHelp
            &&& key_action(k(KeyCode::Char('s')), FocusMode::MaskList) == Action::ActivateMask
            &&& key_action(k(KeyCode::Char('x')), FocusMode::MaskList) == Action::DeactivateMask
            &&& key_action(k(KeyCode::Char('n')), FocusMode::MaskList) == Action::NewMask
            &&& key_action(k(KeyCode::Char('e')), FocusMode::MaskList) == Action::EditMask
            &&& key_action(k(KeyCode::Char('d')), FocusMode::MaskList) == Action::DeleteMask
            &&& key_action(k(KeyCode::Enter), FocusMode::MaskList) == Action::FocusMaskLog
            &&& key_action(k(KeyCode::Char('G')), FocusMode::OutputPane) == Action::ScrollToBottom
            &&& key_action(k(KeyCode::Char('g')), FocusMode::OutputPane) == Action::ScrollToTop
            &&& key_action(k(KeyCode::Esc), FocusMode::OutputPane) == Action::FocusAppList
            &&& key_action(k(KeyCode::Esc), FocusMode::MaskLog) == Action::FocusMaskList
        }),
{
}

/// Ctrl+C quits from every focus mode.
pub proof fn lemma_ctrl_c_quits(mode: FocusMode)
    ensures
        key_action(KeyInput { code: KeyCode::Char('c'), ctrl: true, shift: false }, mode)
            == Action::Quit,
{
}


/// `(i + 1) % n` for an index of a list of `n`: the next index, or zero
/// after the last.
pub proof fn lemma_wrap_next(i: int, n: int)
    requires
        0 <= i < n,
    ensures
        (i + 1) % n == if i + 1 < n {
            i + 1
        } else {
            0
        },
        ((if i == 0 {
            n - 1
        } else {
            i - 1
        }) + 1) % n == i,
{
    if i + 1 == n {
        vstd::arithmetic::div_mod::lemma_mod_self_0(n);
    } else {
        vstd::arithmetic::div_mod::lemma_small_mod((i + 1) as nat, n as nat);
    }
    if i == 0 {
        vstd::arithmetic::div_mod::lemma_mod_self_0(n);
    } else {
        vstd::arithmetic::div_mod::lemma_small_mod(i as nat, n as nat);
    }
}

} // verus!
