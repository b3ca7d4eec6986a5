//! Application state: the template-variable modal, navigation between
//! lists and panes, the alert list and the cron run counter.
//!
//! The event loop that owns processes, proxies and the database runs these
//! transitions and performs what they ask for.

use std::collections::HashMap;
use vstd::prelude::*;

use crate::alerts::{alert_text, format_alert, format_secs_spec, RuntimeAlert};
use crate::clock::duration_nanos;
use crate::db::models::AppConfig;
use crate::json::{json_read_string_map, read_json_string_map};
use crate::process::ProcessState;
use crate::strmap::{map_insert, map_new, string_map};
use crate::template::{
    any_required, defaults_map, error_text, first_missing, lemma_resolve_defaults, names_distinct, required_text, placeholder_names, resolve_spec, resolve_values,
    subst_from, substitute, vars_view, TemplateError, TemplateVar, TemplateVarView,
};
use crate::text::{
    byte_len, char_boundary, decimal, i64_to_string, insert_at_byte, is_blank, parse_u64,
    parse_u64_spec, signed_decimal,
    push_decimal, push_str, remove_at_byte, str_eq, string_byte_len, string_insert, string_remove,
    to_owned_string, trim,
};
use crate::tui::input::{Action, ActiveTab, FocusMode, KeyCode, KeyInput};

verus! {

/// Status of a running mask proxy.
#[derive(Debug, Clone, PartialEq)]
pub enum MaskStatus {
    Inactive,
    Active,
    Error(String),
}

// ---------------------------------------------------------------------------
// The template-variable modal shown before an app starts.
// ---------------------------------------------------------------------------

/// State for the template variable override modal shown at start time.
#[derive(Debug, Clone)]
pub struct TemplateModal {
    pub app_id: i64,
    pub vars: Vec<TemplateVar>,
    pub values: Vec<String>,
    pub current_field: usize,
    pub cursor_pos: usize,
    pub is_restart: bool,
}

/// The modal as plain values.
pub ghost struct ModalView {
    pub app_id: i64,
    pub vars: Seq<TemplateVarView>,
    pub values: Seq<Seq<char>>,
    pub current_field: int,
    pub cursor_pos: int,
    pub is_restart: bool,
}

impl View for TemplateModal {
    type V = ModalView;

    open spec fn view(&self) -> ModalView {
        ModalView {
            app_id: self.app_id,
            vars: vars_view(self.vars@),
            values: self.values@.map_values(|s: String| s@),
            current_field: self.current_field as int,
            cursor_pos: self.cursor_pos as int,
            is_restart: self.is_restart,
        }
    }
}

/// The value a variable's field starts with: its default, else empty.
pub open spec fn default_text(v: TemplateVarView) -> Seq<char> {
    match v.default {
        Some(d) => d,
        None => Seq::empty(),
    }
}

/// The number of (variable, value) pairs the modal holds.
pub open spec fn pair_count(v: ModalView) -> int {
    if v.vars.len() <= v.values.len() {
        v.vars.len() as int
    } else {
        v.values.len() as int
    }
}

/// The values of the first `n` pairs by name; a later pair of the same name
/// wins.
pub open spec fn zip_map(vars: Seq<TemplateVarView>, values: Seq<Seq<char>>, n: int) -> Map<
    Seq<char>,
    Seq<char>,
>
    decreases n,
{
    if n <= 0 {
        Map::empty()
    } else {
        zip_map(vars, values, n - 1).insert(vars[n - 1].name, values[n - 1])
    }
}

/// Whether every required variable (no default) has a non-blank value.
pub open spec fn modal_valid(v: ModalView) -> bool {
    forall|i: int|
        0 <= i < pair_count(v) ==> (#[trigger] v.vars[i]).default is None ==> trim(v.values[i]).len()
            > 0
}

impl TemplateModal {
    /// Create a new template modal pre-filled with defaults.
    pub fn new(app_id: i64, vars: Vec<TemplateVar>, is_restart: bool) -> (m: TemplateModal)
        ensures
            m@.app_id == app_id,
            m@.vars == vars_view(vars@),
            m@.values == vars_view(vars@).map_values(|v: TemplateVarView| default_text(v)),
            m@.current_field == 0,
            m@.cursor_pos == if vars@.len() > 0 {
                byte_len(default_text(vars@[0]@)) as int
            } else {
                0
            },
            m@.is_restart == is_restart,
    {
        let ghost vv = vars_view(vars@);
        let mut values: Vec<String> = Vec::new();
        let mut i: usize = 0;
        while i < vars.len()
            invariant
                i <= vars.len(),
                vv == vars_view(vars@),
                values.len() == i,
                forall|k: int| 0 <= k < i ==> #[trigger] values@[k]@ == default_text(vv[k]),
            decreases vars.len() - i,
        {
            let v = match &vars[i].default {
                Some(d) => d.clone(),
                None => String::new(),
            };
            values.push(v);
            i = i + 1;
        }
        let cursor_pos = if values.len() > 0 {
            string_byte_len(&values[0])
        } else {
            0
        };
        let m = TemplateModal { app_id, vars, values, current_field: 0, cursor_pos, is_restart };
        assert(m@.values =~= vv.map_values(|v: TemplateVarView| default_text(v)));
        m
    }

    /// Get the resolved values as a HashMap for substitution.
    pub fn resolved_values(&self) -> (r: HashMap<String, String>)
        ensures
            string_map(r) == zip_map(self@.vars, self@.values, pair_count(self@)),
    {
        let mut r = map_new();
        let n = if self.vars.len() <= self.values.len() {
            self.vars.len()
        } else {
            self.values.len()
        };
        let mut i: usize = 0;
        assert(string_map(r) =~= Map::<Seq<char>, Seq<char>>::empty());
        while i < n
            invariant
                i <= n,
                n as int == pair_count(self@),
                string_map(r) == zip_map(self@.vars, self@.values, i as int),
            decreases n - i,
        {
            map_insert(&mut r, self.vars[i].name.clone(), self.values[i].clone());
            i = i + 1;
        }
        r
    }

    /// Returns true if all required fields have a non-empty value.
    pub fn is_valid(&self) -> (b: bool)
        ensures
            b == modal_valid(self@),
    {
        let n = if self.vars.len() <= self.values.len() {
            self.vars.len()
        } else {
            self.values.len()
        };
        let mut i: usize = 0;
        while i < n
            invariant
                i <= n,
                n as int == pair_count(self@),
                forall|k: int|
                    0 <= k < i ==> (#[trigger] self@.vars[k]).default is None ==> trim(
                        self@.values[k],
                    ).len() > 0,
            decreases n - i,
        {
            if self.vars[i].is_required() && is_blank(self.values[i].as_str()) {
                assert(self@.vars[i as int].default is None);
                return false;
            }
            i = i + 1;
        }
        true
    }
}

proof fn lemma_zip_map_defaults(vars: Seq<TemplateVarView>, n: int)
    requires
        0 <= n <= vars.len(),
    ensures
        zip_map(vars, vars.map_values(|v: TemplateVarView| default_text(v)), n) == defaults_map(
            vars.take(n),
        ),
    decreases n,
{
    if n > 0 {
        lemma_zip_map_defaults(vars, n - 1);
        assert(vars.take(n).drop_last() =~= vars.take(n - 1));
        assert(vars.take(n).last() == vars[n - 1]);
    }
}

/// A law of the modal: where every variable has a default, the values a
/// fresh modal resolves to are the ones resolution with no overrides gives.
pub proof fn lemma_modal_defaults(vars: Seq<TemplateVarView>)
    requires
        forall|i: int| 0 <= i < vars.len() ==> (#[trigger] vars[i]).default is Some,
    ensures
        resolve_spec(vars, Map::empty()) == Ok::<Map<Seq<char>, Seq<char>>, Seq<char>>(zip_map(
            vars,
            vars.map_values(|v: TemplateVarView| default_text(v)),
            vars.len() as int,
        )),
{
    lemma_resolve_defaults(vars);
    lemma_zip_map_defaults(vars, vars.len() as int);
    assert(vars.take(vars.len() as int) =~= vars);
}

/// A law of the modal: with distinct names and a value for each variable,
/// the resolved values give each variable's name its value.
pub proof fn lemma_resolved_values_by_name(v: ModalView)
    requires
        v.values.len() == v.vars.len(),
        names_distinct(v.vars),
    ensures
        forall|i: int|
            0 <= i < v.vars.len() ==> zip_map(v.vars, v.values, pair_count(v)).dom().contains(
                #[trigger] v.vars[i].name,
            ) && zip_map(v.vars, v.values, pair_count(v))[v.vars[i].name] == v.values[i],
{
    lemma_zip_map_distinct(v.vars, v.values, v.vars.len() as int);
}

proof fn lemma_zip_map_distinct(vars: Seq<TemplateVarView>, values: Seq<Seq<char>>, n: int)
    requires
        0 <= n <= vars.len(),
        n <= values.len(),
        names_distinct(vars),
    ensures
        forall|i: int|
            0 <= i < n ==> zip_map(vars, values, n).dom().contains(#[trigger] vars[i].name) && zip_map(
                vars,
                values,
                n,
            )[vars[i].name] == values[i],
    decreases n,
{
    if n > 0 {
        lemma_zip_map_distinct(vars, values, n - 1);
        assert forall|i: int| 0 <= i < n implies zip_map(vars, values, n).dom().contains(
            #[trigger] vars[i].name,
        ) && zip_map(vars, values, n)[vars[i].name] == values[i] by {
            if i < n - 1 {
                assert(vars[i].name != vars[n - 1].name);
            }
        }
    }
}

/// What a key press in the modal asks of the caller.
#[derive(Debug, Clone, Copy, PartialEq, Eq, Structural)]
pub enum ModalAction {
    /// Keep the modal open.
    Continue,
    /// Close the modal without starting.
    Cancel,
    /// Close the modal and start the app with the resolved values.
    Submit,
}

pub open spec fn modal_field_text(v: ModalView) -> Seq<char> {
    v.values[v.current_field]
}

/// The keys on which the modal's edits stay within its strings.
pub open spec fn modal_key_ok(v: ModalView, key: KeyInput) -> bool {
    if key.ctrl && key.code == KeyCode::Char('c') {
        true
    } else {
        match key.code {
            KeyCode::Tab => v.vars.len() > 0 ==> v.current_field < usize::MAX && (v.current_field
                + 1) % (v.vars.len() as int) < v.values.len(),
            KeyCode::BackTab => v.vars.len() > 0 ==> wrap_prev(v.current_field, v.vars.len() as int)
                < v.values.len(),
            KeyCode::Char(_) => 0 <= v.current_field < v.values.len() && v.cursor_pos <= byte_len(
                modal_field_text(v),
            ) && char_boundary(modal_field_text(v), v.cursor_pos),
            KeyCode::Backspace => v.cursor_pos > 0 ==> 0 <= v.current_field < v.values.len()
                && v.cursor_pos - 1 < byte_len(modal_field_text(v)) && char_boundary(
                modal_field_text(v),
                v.cursor_pos - 1,
            ),
            KeyCode::Right => 0 <= v.current_field < v.values.len(),
            _ => true,
        }
    }
}

pub open spec fn modal_focus(v: ModalView, cf: int) -> ModalView {
    ModalView { current_field: cf, cursor_pos: byte_len(v.values[cf]) as int, ..v }
}

/// The modal after a key press, and what the caller is to do.
pub open spec fn modal_key_spec(v: ModalView, key: KeyInput) -> (ModalView, ModalAction) {
    if key.ctrl && key.code == KeyCode::Char('c') {
        (v, ModalAction::Cancel)
    } else {
        match key.code {
            KeyCode::Esc => (v, ModalAction::Cancel),
            KeyCode::Tab => if v.vars.len() > 0 {
                (
                    modal_focus(v, (v.current_field + 1) % (v.vars.len() as int)),
                    ModalAction::Continue,
                )
            } else {
                (v, ModalAction::Continue)
            },
            KeyCode::BackTab => if v.vars.len() > 0 {
                let cf = if v.current_field == 0 {
                    v.vars.len() - 1
                } else {
                    v.current_field - 1
                };
                (modal_focus(v, cf), ModalAction::Continue)
            } else {
                (v, ModalAction::Continue)
            },
            KeyCode::Enter => if modal_valid(v) {
                (v, ModalAction::Submit)
            } else {
                (v, ModalAction::Continue)
            },
            KeyCode::Char(c) => (
                ModalView {
                    values: v.values.update(
                        v.current_field,
                        insert_at_byte(modal_field_text(v), v.cursor_pos, c),
                    ),
                    cursor_pos: v.cursor_pos + 1,
                    ..v
                },
                ModalAction::Continue,
            ),
            KeyCode::Backspace => if v.cursor_pos > 0 {
                (
                    ModalView {
                        values: v.values.update(
                            v.current_field,
                            remove_at_byte(modal_field_text(v), v.cursor_pos - 1),
                        ),
                        cursor_pos: v.cursor_pos - 1,
                        ..v
                    },
                    ModalAction::Continue,
                )
            } else {
                (v, ModalAction::Continue)
            },
            KeyCode::Left => if v.cursor_pos > 0 {
                (ModalView { cursor_pos: v.cursor_pos - 1, ..v }, ModalAction::Continue)
            } else {
                (v, ModalAction::Continue)
            },
            KeyCode::Right => if v.cursor_pos < byte_len(modal_field_text(v)) {
                (ModalView { cursor_pos: v.cursor_pos + 1, ..v }, ModalAction::Continue)
            } else {
                (v, ModalAction::Continue)
            },
            _ => (v, ModalAction::Continue),
        }
    }
}

/// Handle a key while the template variable modal is open.
pub fn handle_template_modal_key(key: KeyInput, modal: &mut TemplateModal) -> (a: ModalAction)
    requires
        modal_key_ok(old(modal)@, key),
    ensures
        (final(modal)@, a) == modal_key_spec(old(modal)@, key),
{
    if key.ctrl && key.code == KeyCode::Char('c') {
        return ModalAction::Cancel;
    }
    match key.code {
        KeyCode::Esc => ModalAction::Cancel,
        KeyCode::Tab => {
            if modal.vars.len() > 0 {
                modal.current_field = (modal.current_field + 1) % modal.vars.len();
                modal.cursor_pos = string_byte_len(&modal.values[modal.current_field]);
            }
            ModalAction::Continue
        },
        KeyCode::BackTab => {
            if modal.vars.len() > 0 {
                if modal.current_field == 0 {
                    modal.current_field = modal.vars.len() - 1;
                } else {
                    modal.current_field = modal.current_field - 1;
                }
                modal.cursor_pos = string_byte_len(&modal.values[modal.current_field]);
            }
            ModalAction::Continue
        },
        KeyCode::Enter => {
            if modal.is_valid() {
                ModalAction::Submit
            } else {
                ModalAction::Continue
            }
        },
        KeyCode::Char(c) => {
            let cf = modal.current_field;
            let pos = modal.cursor_pos;
            // A string's length, and so the cursor, stays below `isize::MAX`.
            let len = string_byte_len(&modal.values[cf]);
            assert(pos <= len);
            let mut text = modal.values[cf].clone();
            string_insert(&mut text, pos, c);
            modal.values.set(cf, text);
            modal.cursor_pos = pos + 1;
            assert(modal@.values =~= old(modal)@.values.update(
                cf as int,
                insert_at_byte(modal_field_text(old(modal)@), pos as int, c),
            ));
            ModalAction::Continue
        },
        KeyCode::Backspace => {
            if modal.cursor_pos > 0 {
                let cf = modal.current_field;
                let pos = modal.cursor_pos - 1;
                let mut text = modal.values[cf].clone();
                string_remove(&mut text, pos);
                modal.values.set(cf, text);
                modal.cursor_pos = pos;
                assert(modal@.values =~= old(modal)@.values.update(
                    cf as int,
                    remove_at_byte(modal_field_text(old(modal)@), pos as int),
                ));
            }
            ModalAction::Continue
        },
        KeyCode::Left => {
            if modal.cursor_pos > 0 {
                modal.cursor_pos = modal.cursor_pos - 1;
            }
            ModalAction::Continue
        },
        KeyCode::Right => {
            let len = string_byte_len(&modal.values[modal.current_field]);
            if modal.cursor_pos < len {
                modal.cursor_pos = modal.cursor_pos + 1;
            }
            ModalAction::Continue
        },
        _ => ModalAction::Continue,
    }
}

// ---------------------------------------------------------------------------
// Navigation between lists and panes.
// ---------------------------------------------------------------------------

/// The part of the application state that key actions move: whether it
/// runs, which pane has focus, which tab shows, and the selections and
/// scroll offsets of both lists.
#[derive(Debug, Clone, Copy, PartialEq, Eq, Structural)]
pub struct UiState {
    pub running: bool,
    pub focus: FocusMode,
    pub active_tab: ActiveTab,
    pub selected_index: usize,
    pub scroll_offset: usize,
    pub mask_selected_index: usize,
    pub mask_scroll_offset: usize,
}

/// What navigation depends on: the lengths of the two lists, and the number
/// of lines of the selected app's output and of entries in the selected
/// mask's log (none where there is no such app, mask, output or log).
#[derive(Debug, Clone, Copy, PartialEq, Eq, Structural)]
pub struct UiSizes {
    pub apps: usize,
    pub masks: usize,
    pub output_lines: Option<usize>,
    pub log_entries: Option<usize>,
}

impl UiState {
    /// The state a session starts in.
    pub fn new() -> (s: UiState)
        ensures
            s == (UiState {
                running: true,
                focus: FocusMode::AppList,
                active_tab: ActiveTab::Apps,
                selected_index: 0,
                scroll_offset: 0,
                mask_selected_index: 0,
                mask_scroll_offset: 0,
            }),
    {
        UiState {
            running: true,
            focus: FocusMode::AppList,
            active_tab: ActiveTab::Apps,
            selected_index: 0,
            scroll_offset: 0,
            mask_selected_index: 0,
            mask_scroll_offset: 0,
        }
    }
}

/// The index before `i` in a list of `n`, wrapping to the last.
pub open spec fn wrap_prev(i: int, n: int) -> int {
    if i == 0 {
        n - 1
    } else {
        i - 1
    }
}

/// The index after `i` in a list of `n`, wrapping to the first.
pub open spec fn wrap_next(i: int, n: int) -> int {
    (i + 1) % n
}

/// `n - 1`, or zero for an empty count.
pub open spec fn last_index(n: int) -> int {
    if n > 0 {
        n - 1
    } else {
        0
    }
}

/// Whether an action only moves the navigation state.
pub open spec fn is_navigation(a: Action) -> bool {
    match a {
        Action::Quit | Action::NavigateUp | Action::NavigateDown | Action::FocusOutput
        | Action::FocusAppList | Action::ScrollUp | Action::ScrollDown | Action::ScrollToTop
        | Action::ScrollToBottom | Action::ShowHelp | Action::HideHelp | Action::SwitchToApps
        | Action::SwitchToMasks | Action::FocusMaskLog | Action::FocusMaskList | Action::Confirm
        | Action::Cancel | Action::Nothing => true,
        _ => false,
    }
}

/// The navigation state after an action; actions that are not navigation
/// leave it as it is.
pub open spec fn ui_step(s: UiState, a: Action, z: UiSizes) -> UiState {
    match a {
        Action::Quit => UiState { running: false, ..s },
        Action::NavigateUp => match s.active_tab {
            ActiveTab::Apps => if z.apps > 0 {
                UiState {
                    selected_index: wrap_prev(s.selected_index as int, z.apps as int) as usize,
                    scroll_offset: 0,
                    ..s
                }
            } else {
                s
            },
            ActiveTab::Masks => if z.masks > 0 {
                UiState {
                    mask_selected_index: wrap_prev(s.mask_selected_index as int, z.masks as int) as usize,
                    mask_scroll_offset: 0,
                    ..s
                }
            } else {
                s
            },
        },
        Action::NavigateDown => match s.active_tab {
            ActiveTab::Apps => if z.apps > 0 {
                UiState {
                    selected_index: wrap_next(s.selected_index as int, z.apps as int) as usize,
                    scroll_offset: 0,
                    ..s
                }
            } else {
                s
            },
            ActiveTab::Masks => if z.masks > 0 {
                UiState {
                    mask_selected_index: wrap_next(s.mask_selected_index as int, z.masks as int) as usize,
                    mask_scroll_offset: 0,
                    ..s
                }
            } else {
                s
            },
        },
        Action::FocusOutput => if z.apps > 0 {
            UiState { focus: FocusMode::OutputPane, ..s }
        } else {
            s
        },
        Action::FocusAppList => UiState { focus: FocusMode::AppList, ..s },
        Action::ScrollUp => if s.focus == FocusMode::OutputPane && s.scroll_offset > 0 {
            UiState { scroll_offset: (s.scroll_offset - 1) as usize, ..s }
        } else if s.focus == FocusMode::MaskLog && s.mask_scroll_offset > 0 {
            UiState { mask_scroll_offset: (s.mask_scroll_offset - 1) as usize, ..s }
        } else {
            s
        },
        Action::ScrollDown => if s.focus == FocusMode::OutputPane {
            match z.output_lines {
                Some(t) => if s.scroll_offset < last_index(t as int) {
                    UiState { scroll_offset: (s.scroll_offset + 1) as usize, ..s }
                } else {
                    s
                },
                None => s,
            }
        } else if s.focus == FocusMode::MaskLog {
            match z.log_entries {
                Some(t) => if s.mask_scroll_offset < last_index(t as int) {
                    UiState { mask_scroll_offset: (s.mask_scroll_offset + 1) as usize, ..s }
                } else {
                    s
                },
                None => s,
            }
        } else {
            s
        },
        Action::ScrollToTop => if s.focus == FocusMode::OutputPane {
            UiState { scroll_offset: 0, ..s }
        } else if s.focus == FocusMode::MaskLog {
            UiState { mask_scroll_offset: 0, ..s }
        } else {
            s
        },
        Action::ScrollToBottom => if s.focus == FocusMode::OutputPane {
            match z.output_lines {
                Some(t) => UiState { scroll_offset: last_index(t as int) as usize, ..s },
                None => s,
            }
        } else if s.focus == FocusMode::MaskLog {
            match z.log_entries {
                Some(t) => UiState { mask_scroll_offset: last_index(t as int) as usize, ..s },
                None => s,
            }
        } else {
            s
        },
        Action::ShowHelp => UiState { focus: FocusMode::Help, ..s },
        Action::HideHelp => match s.active_tab {
            ActiveTab::Apps => UiState { focus: FocusMode::AppList, ..s },
            ActiveTab::Masks => UiState { focus: FocusMode::MaskList, ..s },
        },
        Action::SwitchToApps => UiState { active_tab: ActiveTab::Apps, focus: FocusMode::AppList, ..s },
        Action::SwitchToMasks => UiState {
            active_tab: ActiveTab::Masks,
            focus: FocusMode::MaskList,
            ..s
        },
        Action::FocusMaskLog => if z.masks > 0 {
            UiState { focus: FocusMode::MaskLog, mask_scroll_offset: 0, ..s }
        } else {
            s
        },
        Action::FocusMaskList => UiState { focus: FocusMode::MaskList, ..s },
        _ => s,
    }
}

/// The selection indices stay below `usize::MAX`, so a wrap can add one.
pub open spec fn ui_ok(s: UiState) -> bool {
    s.selected_index < usize::MAX && s.mask_selected_index < usize::MAX
}

/// Applies a navigation action. Returns whether the action was one;
/// others (starting, stopping, editing, ...) are left to the caller.
pub fn navigate(ui: &mut UiState, action: Action, sizes: UiSizes) -> (handled: bool)
    requires
        ui_ok(*old(ui)),
    ensures
        *final(ui) == ui_step(*old(ui), action, sizes),
        handled == is_navigation(action),
{
    match action {
        Action::Quit => {
            ui.running = false;
        },
        Action::NavigateUp => {
            match ui.active_tab {
                ActiveTab::Apps => {
                    if sizes.apps > 0 {
                        if ui.selected_index == 0 {
                            ui.selected_index = sizes.apps - 1;
                        } else {
                            ui.selected_index = ui.selected_index - 1;
                        }
                        ui.scroll_offset = 0;
                    }
                },
                ActiveTab::Masks => {
                    if sizes.masks > 0 {
                        if ui.mask_selected_index == 0 {
                            ui.mask_selected_index = sizes.masks - 1;
                        } else {
                            ui.mask_selected_index = ui.mask_selected_index - 1;
                        }
                        ui.mask_scroll_offset = 0;
                    }
                },
            }
        },
        Action::NavigateDown => {
            match ui.active_tab {
                ActiveTab::Apps => {
                    if sizes.apps > 0 {
                        ui.selected_index = (ui.selected_index + 1) % sizes.apps;
                        ui.scroll_offset = 0;
                    }
                },
                ActiveTab::Masks => {
                    if sizes.masks > 0 {
                        ui.mask_selected_index = (ui.mask_selected_index + 1) % sizes.masks;
                        ui.mask_scroll_offset = 0;
                    }
                },
            }
        },
        Action::FocusOutput => {
            if sizes.apps > 0 {
                ui.focus = FocusMode::OutputPane;
            }
        },
        Action::FocusAppList => {
            ui.focus = FocusMode::AppList;
        },
        Action::ScrollUp => {
            if ui.focus == FocusMode::OutputPane && ui.scroll_offset > 0 {
                ui.scroll_offset = ui.scroll_offset - 1;
            } else if ui.focus == FocusMode::MaskLog && ui.mask_scroll_offset > 0 {
                ui.mask_scroll_offset = ui.mask_scroll_offset - 1;
            }
        },
        Action::ScrollDown => {
            if ui.focus == FocusMode::OutputPane {
                if let Some(total) = sizes.output_lines {
                    if ui.scroll_offset < total.saturating_sub(1) {
                        ui.scroll_offset = ui.scroll_offset + 1;
                    }
                }
            } else if ui.focus == FocusMode::MaskLog {
                if let Some(total) = sizes.log_entries {
                    if ui.mask_scroll_offset < total.saturating_sub(1) {
                        ui.mask_scroll_offset = ui.mask_scroll_offset + 1;
                    }
                }
            }
        },
        Action::ScrollToTop => {
            if ui.focus == FocusMode::OutputPane {
                ui.scroll_offset = 0;
            } else if ui.focus == FocusMode::MaskLog {
                ui.mask_scroll_offset = 0;
            }
        },
        Action::ScrollToBottom => {
            if ui.focus == FocusMode::OutputPane {
                if let Some(total) = sizes.output_lines {
                    ui.scroll_offset = total.saturating_sub(1);
                }
            } else if ui.focus == FocusMode::MaskLog {
                if let Some(total) = sizes.log_entries {
                    ui.mask_scroll_offset = total.saturating_sub(1);
                }
            }
        },
        Action::ShowHelp => {
            ui.focus = FocusMode::Help;
        },
        Action::HideHelp => {
            match ui.active_tab {
                ActiveTab::Apps => {
                    ui.focus = FocusMode::AppList;
                },
                ActiveTab::Masks => {
                    ui.focus = FocusMode::MaskList;
                },
            }
        },
        Action::SwitchToApps => {
            ui.active_tab = ActiveTab::Apps;
            ui.focus = FocusMode::AppList;
        },
        Action::SwitchToMasks => {
            ui.active_tab = ActiveTab::Masks;
            ui.focus = FocusMode::MaskList;
        },
        Action::FocusMaskLog => {
            if sizes.masks > 0 {
                ui.focus = FocusMode::MaskLog;
                ui.mask_scroll_offset = 0;
            }
        },
        Action::FocusMaskList => {
            ui.focus = FocusMode::MaskList;
        },
        Action::Confirm | Action::Cancel | Action::Nothing => {},
        _ => {
            return false;
        },
    }
    true
}

/// A law of navigation: on a non-empty list, moving down and then up comes
/// back to the same entry, and moving up and then down does too.
pub proof fn lemma_navigate_down_up(s: UiState, z: UiSizes)
    requires
        s.active_tab == ActiveTab::Apps,
        z.apps > 0,
        s.selected_index < z.apps,
    ensures
        ui_step(ui_step(s, Action::NavigateDown, z), Action::NavigateUp, z).selected_index
            == s.selected_index,
        ui_step(ui_step(s, Action::NavigateUp, z), Action::NavigateDown, z).selected_index
            == s.selected_index,
        ui_step(s, Action::NavigateDown, z).selected_index < z.apps,
        ui_step(s, Action::NavigateUp, z).selected_index < z.apps,
{
    crate::tui::input::lemma_wrap_next(s.selected_index as int, z.apps as int);
}

/// The selection after the selected entry of a list was deleted and the
/// list now has `len` entries: kept, or moved to the last entry when it
/// fell off the end.
pub open spec fn clamp_after_delete(sel: int, len: int) -> int {
    if sel >= len && len > 0 {
        len - 1
    } else {
        sel
    }
}

/// The selection after a deletion left `len` entries.
pub fn selection_after_delete(sel: usize, len: usize) -> (r: usize)
    ensures
        r == clamp_after_delete(sel as int, len as int),
{
    if sel >= len && len > 0 {
        len - 1
    } else {
        sel
    }
}

// ---------------------------------------------------------------------------
// The alert list.
// ---------------------------------------------------------------------------

/// How many alerts the status bar keeps.
pub const MAX_ALERTS: usize = 10;

/// Whether an alert is a runtime alert, which starts with a stopwatch.
pub open spec fn is_runtime_alert(a: Seq<char>) -> bool {
    a.len() > 0 && a[0] == '\u{23f1}'
}

/// The alerts that are not runtime alerts, in order.
pub open spec fn other_alerts(s: Seq<Seq<char>>) -> Seq<Seq<char>>
    decreases s.len(),
{
    if s.len() == 0 {
        Seq::empty()
    } else if is_runtime_alert(s.last()) {
        other_alerts(s.drop_last())
    } else {
        other_alerts(s.drop_last()).push(s.last())
    }
}

/// `acc` with each message of `msgs` appended, in order, unless already
/// present.
pub open spec fn add_new(acc: Seq<Seq<char>>, msgs: Seq<Seq<char>>) -> Seq<Seq<char>>
    decreases msgs.len(),
{
    if msgs.len() == 0 {
        acc
    } else {
        let prev = add_new(acc, msgs.drop_last());
        if prev.contains(msgs.last()) {
            prev
        } else {
            prev.push(msgs.last())
        }
    }
}

/// The last `MAX_ALERTS` alerts.
pub open spec fn keep_last(s: Seq<Seq<char>>) -> Seq<Seq<char>> {
    if s.len() > MAX_ALERTS {
        s.skip(s.len() - MAX_ALERTS)
    } else {
        s
    }
}

/// The text of a runtime alert.
pub open spec fn runtime_alert_text(a: RuntimeAlert) -> Seq<char> {
    alert_text(a.app_name@, format_secs_spec(duration_nanos(a.exceeded_by) / 1_000_000_000))
}

/// The alert list after a tick: earlier runtime alerts are replaced by the
/// current ones (each once), and only the latest `MAX_ALERTS` stay.
pub open spec fn refreshed_alerts(alerts: Seq<Seq<char>>, runtime: Seq<RuntimeAlert>) -> Seq<
    Seq<char>,
> {
    keep_last(add_new(other_alerts(alerts), runtime.map_values(|a: RuntimeAlert| runtime_alert_text(a))))
}

fn contains_text(v: &Vec<String>, s: &str) -> (b: bool)
    ensures
        b == v@.map_values(|t: String| t@).contains(s@),
{
    let mut i: usize = 0;
    while i < v.len()
        invariant
            i <= v.len(),
            forall|k: int| 0 <= k < i ==> (#[trigger] v@[k])@ != s@,
        decreases v.len() - i,
    {
        if str_eq(v[i].as_str(), s) {
            assert(v@.map_values(|t: String| t@)[i as int] == s@);
            return true;
        }
        i = i + 1;
    }
    false
}

/// Replaces the runtime alerts of the list with the current ones and keeps
/// the latest `MAX_ALERTS`. Returns the ids of the apps that are over their
/// limit, in the order of `runtime`.
pub fn refresh_alerts(alerts: &mut Vec<String>, runtime: &Vec<RuntimeAlert>) -> (ids: Vec<i64>)
    ensures
        final(alerts)@.map_values(|t: String| t@) == refreshed_alerts(
            old(alerts)@.map_values(|t: String| t@),
            runtime@,
        ),
        ids@ == runtime@.map_values(|a: RuntimeAlert| a.app_id),
{
    let ghost orig = old(alerts)@.map_values(|t: String| t@);
    let mut kept: Vec<String> = Vec::new();
    let mut i: usize = 0;
    assert(orig.take(0) =~= Seq::<Seq<char>>::empty());
    while i < alerts.len()
        invariant
            i <= alerts.len(),
            orig == alerts@.map_values(|t: String| t@),
            kept@.map_values(|t: String| t@) == other_alerts(orig.take(i as int)),
        decreases alerts.len() - i,
    {
        assert(orig.take(i + 1).drop_last() =~= orig.take(i as int));
        assert(orig.take(i + 1).last() == alerts@[i as int]@);
        let a = &alerts[i];
        let runtime_alert = a.unicode_len() > 0 && a.as_str().get_char(0) == '\u{23f1}';
        if !runtime_alert {
            kept.push(a.clone());
            assert(kept@.map_values(|t: String| t@) =~= other_alerts(orig.take(i as int)).push(
                alerts@[i as int]@,
            ));
        }
        i = i + 1;
    }
    assert(orig.take(alerts.len() as int) =~= orig);
    let ghost msgs = runtime@.map_values(|a: RuntimeAlert| runtime_alert_text(a));
    let mut ids: Vec<i64> = Vec::new();
    let mut j: usize = 0;
    assert(msgs.take(0) =~= Seq::<Seq<char>>::empty());
    while j < runtime.len()
        invariant
            j <= runtime.len(),
            msgs == runtime@.map_values(|a: RuntimeAlert| runtime_alert_text(a)),
            kept@.map_values(|t: String| t@) == add_new(other_alerts(orig), msgs.take(j as int)),
            ids@ == runtime@.take(j as int).map_values(|a: RuntimeAlert| a.app_id),
        decreases runtime.len() - j,
    {
        assert(msgs.take(j + 1).drop_last() =~= msgs.take(j as int));
        let msg = format_alert(&runtime[j]);
        assert(msgs.take(j + 1).last() == msg@);
        if !contains_text(&kept, msg.as_str()) {
            kept.push(msg);
            assert(kept@.map_values(|t: String| t@) =~= add_new(other_alerts(orig), msgs.take(
                j as int,
            )).push(msgs[j as int]));
        }
        ids.push(runtime[j].app_id);
        assert(ids@ =~= runtime@.take(j + 1).map_values(|a: RuntimeAlert| a.app_id));
        j = j + 1;
    }
    assert(msgs.take(runtime.len() as int) =~= msgs);
    assert(runtime@.take(runtime.len() as int) =~= runtime@);
    let ghost added = kept@.map_values(|t: String| t@);
    if kept.len() > MAX_ALERTS {
        let drop = kept.len() - MAX_ALERTS;
        let mut last: Vec<String> = Vec::new();
        let mut k: usize = drop;
        while k < kept.len()
            invariant
                drop <= k <= kept.len(),
                drop == kept.len() - MAX_ALERTS,
                added == kept@.map_values(|t: String| t@),
                last.len() == k - drop,
                forall|m: int| 0 <= m < k - drop ==> #[trigger] last@[m]@ == added[drop + m],
            decreases kept.len() - k,
        {
            assert(added[k as int] == kept@[k as int]@);
            last.push(kept[k].clone());
            k = k + 1;
        }
        assert(last@.map_values(|t: String| t@) =~= keep_last(added));
        *alerts = last;
    } else {
        *alerts = kept;
    }
    ids
}

proof fn lemma_other_alerts(s: Seq<Seq<char>>)
    ensures
        forall|i: int| 0 <= i < other_alerts(s).len() ==> !is_runtime_alert(#[trigger] other_alerts(s)[i]),
    decreases s.len(),
{
    if s.len() > 0 {
        lemma_other_alerts(s.drop_last());
        let p = other_alerts(s.drop_last());
        assert forall|i: int| 0 <= i < other_alerts(s).len() implies !is_runtime_alert(
            #[trigger] other_alerts(s)[i],
        ) by {
            if i < p.len() {
                assert(other_alerts(s)[i] == p[i]);
            }
        }
    }
}

proof fn lemma_add_new(acc: Seq<Seq<char>>, msgs: Seq<Seq<char>>)
    ensures
        add_new(acc, msgs).len() >= acc.len(),
        add_new(acc, msgs).len() - acc.len() <= msgs.len(),
        add_new(acc, msgs).take(acc.len() as int) == acc,
        forall|i: int|
            acc.len() <= i < add_new(acc, msgs).len() ==> msgs.contains(#[trigger] add_new(acc, msgs)[i]),
        forall|i: int, j: int|
            0 <= i < j < add_new(acc, msgs).len() && acc.len() <= j ==> add_new(acc, msgs)[i] != add_new(
                acc,
                msgs,
            )[j],
        forall|k: int| 0 <= k < msgs.len() ==> add_new(acc, msgs).contains(#[trigger] msgs[k]),
    decreases msgs.len(),
{
    if msgs.len() == 0 {
        assert(acc.take(acc.len() as int) =~= acc);
    } else {
        let pm = msgs.drop_last();
        lemma_add_new(acc, pm);
        let prev = add_new(acc, pm);
        let s = add_new(acc, msgs);
        if !prev.contains(msgs.last()) {
            assert(s == prev.push(msgs.last()));
            assert(s.take(acc.len() as int) =~= prev.take(acc.len() as int));
            assert forall|i: int, j: int| 0 <= i < j < s.len() && acc.len() <= j implies s[i] != s[j] by {
                if j == s.len() - 1 {
                    assert(s[i] == prev[i]);
                    if s[i] == s[j] {
                        assert(prev.contains(msgs.last()));
                    }
                } else {
                    assert(s[i] == prev[i] && s[j] == prev[j]);
                }
            }
            assert forall|i: int| acc.len() <= i < s.len() implies msgs.contains(#[trigger] s[i]) by {
                if i < s.len() - 1 {
                    assert(s[i] == prev[i]);
                    let k = choose|k: int| 0 <= k < pm.len() && pm[k] == prev[i];
                    assert(msgs[k] == pm[k]);
                } else {
                    assert(msgs[msgs.len() - 1] == msgs.last());
                }
            }
        } else {
            assert forall|i: int| acc.len() <= i < s.len() implies msgs.contains(#[trigger] s[i]) by {
                let k = choose|k: int| 0 <= k < pm.len() && pm[k] == prev[i];
                assert(msgs[k] == pm[k]);
            }
        }
        assert forall|k: int| 0 <= k < msgs.len() implies s.contains(#[trigger] msgs[k]) by {
            if k < msgs.len() - 1 {
                assert(msgs[k] == pm[k]);
                let x = choose|x: int| 0 <= x < prev.len() && prev[x] == pm[k];
                assert(s[x] == prev[x]);
            } else {
                assert(msgs[k] == msgs.last());
                if !prev.contains(msgs.last()) {
                    assert(s[s.len() - 1] == msgs.last());
                }
            }
        }
    }
}

/// A law of the alert list: after a refresh each runtime alert in it is
/// the text of a current runtime alert and occurs once, and when there are
/// no more current runtime alerts than the list keeps, every one of them is
/// in it.
pub proof fn lemma_alerts_refreshed(alerts: Seq<Seq<char>>, runtime: Seq<RuntimeAlert>)
    ensures
        ({
            let r = refreshed_alerts(alerts, runtime);
            &&& forall|i: int|
                0 <= i < r.len() && is_runtime_alert(#[trigger] r[i]) ==> exists|k: int|
                    0 <= k < runtime.len() && r[i] == runtime_alert_text(runtime[k])
            &&& forall|i: int, j: int|
                0 <= i < j < r.len() && is_runtime_alert(#[trigger] r[i]) ==> r[i] != #[trigger] r[j]
            &&& runtime.len() <= MAX_ALERTS ==> forall|k: int|
                0 <= k < runtime.len() ==> r.contains(runtime_alert_text(#[trigger] runtime[k]))
        }),
{
    let o = other_alerts(alerts);
    let msgs = runtime.map_values(|a: RuntimeAlert| runtime_alert_text(a));
    let s = add_new(o, msgs);
    let r = refreshed_alerts(alerts, runtime);
    lemma_other_alerts(alerts);
    lemma_add_new(o, msgs);
    let d: int = if s.len() > MAX_ALERTS {
        s.len() - MAX_ALERTS
    } else {
        0
    };
    assert(r =~= s.skip(d));
    assert forall|i: int| 0 <= i < s.len() && is_runtime_alert(#[trigger] s[i]) implies o.len() <= i by {
        if i < o.len() {
            assert(s.take(o.len() as int)[i] == s[i]);
        }
    }
    assert forall|i: int|
        0 <= i < r.len() && is_runtime_alert(#[trigger] r[i]) implies exists|k: int|
            0 <= k < runtime.len() && r[i] == runtime_alert_text(runtime[k]) by {
        assert(r[i] == s[i + d]);
        assert(is_runtime_alert(s[i + d]));
        let k = choose|k: int| 0 <= k < msgs.len() && msgs[k] == s[i + d];
    }
    assert forall|i: int, j: int|
        0 <= i < j < r.len() && is_runtime_alert(#[trigger] r[i]) implies r[i] != #[trigger] r[j] by {
        assert(r[i] == s[i + d] && r[j] == s[j + d]);
        assert(is_runtime_alert(s[i + d]));
    }
    if runtime.len() <= MAX_ALERTS {
        assert forall|k: int| 0 <= k < runtime.len() implies r.contains(
            runtime_alert_text(#[trigger] runtime[k]),
        ) by {
            assert(msgs[k] == runtime_alert_text(runtime[k]));
            let x = choose|x: int| 0 <= x < s.len() && s[x] == msgs[k];
            assert(seq!['\u{23f1}', ' '][0] == '\u{23f1}');
            assert(runtime_alert_text(runtime[k])[0] == '\u{23f1}');
            assert(is_runtime_alert(s[x]));
            assert(o.len() <= x);
            assert(r[x - d] == s[x]);
        }
    }
}

/// A law of the alert list: after a refresh it never holds more than
/// `MAX_ALERTS` alerts.
pub proof fn lemma_alerts_bounded(alerts: Seq<Seq<char>>, runtime: Seq<RuntimeAlert>)
    ensures
        refreshed_alerts(alerts, runtime).len() <= MAX_ALERTS,
{
}

// ---------------------------------------------------------------------------
// Cron runs.
// ---------------------------------------------------------------------------

/// How many runs of a cron job the output keeps before it is cleared.
pub const MAX_CRON_RUNS: u32 = 10;

/// The run number after one more run, and whether the output is to be
/// cleared first: past `MAX_CRON_RUNS` the count starts again at one.
pub open spec fn next_run_spec(count: u32) -> (u32, bool) {
    if count + 1 > MAX_CRON_RUNS {
        (1, true)
    } else {
        ((count + 1) as u32, false)
    }
}

/// Counts one more run of a cron job.
pub fn next_run(count: u32) -> (r: (u32, bool))
    requires
        count < u32::MAX,
    ensures
        r == next_run_spec(count),
{
    let n = count + 1;
    if n > MAX_CRON_RUNS {
        (1, true)
    } else {
        (n, false)
    }
}

/// A law of the run counter: from any count the next run number lies
/// between one and `MAX_CRON_RUNS`.
pub proof fn lemma_run_count_bounded(count: u32)
    requires
        count < u32::MAX,
    ensures
        1 <= next_run_spec(count).0 <= MAX_CRON_RUNS,
{
}

/// The separator written into the output before run `n`.
pub open spec fn run_separator_text(n: u32) -> Seq<char> {
    "\r\n\u{1b}[90m\u{2500}\u{2500}\u{2500} run #"@ + decimal(n as nat) + " \u{2500}\u{2500}\u{2500}\u{1b}[0m\r\n"@
}

/// The separator written into a cron job's output before run `n`.
pub fn run_separator(n: u32) -> (s: String)
    ensures
        s@ == run_separator_text(n),
{
    let mut s = to_owned_string("\r\n\u{1b}[90m\u{2500}\u{2500}\u{2500} run #");
    push_decimal(&mut s, n as u64);
    push_str(&mut s, " \u{2500}\u{2500}\u{2500}\u{1b}[0m\r\n");
    s
}

// ---------------------------------------------------------------------------
// Settings.
// ---------------------------------------------------------------------------

/// The global runtime limit when none is configured: five hours.
pub const DEFAULT_GLOBAL_MAX_SECS: u64 = 18000u64;

/// The global runtime limit a stored setting gives: its value when it reads
/// as an unsigned integer, else the default.
pub open spec fn global_max_spec(setting: Option<Seq<char>>) -> u64 {
    match setting {
        Some(v) => match parse_u64_spec(v) {
            Some(n) => n,
            None => DEFAULT_GLOBAL_MAX_SECS,
        },
        None => DEFAULT_GLOBAL_MAX_SECS,
    }
}

/// Reads the global runtime limit from its stored setting.
pub fn global_max_runtime(setting: Option<String>) -> (n: u64)
    ensures
        n == global_max_spec(match setting {
            Some(v) => Some(v@),
            None => None,
        }),
{
    match setting {
        Some(v) => match parse_u64(v.as_str()) {
            Some(n) => n,
            None => DEFAULT_GLOBAL_MAX_SECS,
        },
        None => DEFAULT_GLOBAL_MAX_SECS,
    }
}

// ---------------------------------------------------------------------------
// Starting an app.
// ---------------------------------------------------------------------------

/// Parse env_vars JSON string into a HashMap. Text that is not a JSON
/// object of strings gives an empty map.
pub fn parse_env_vars(env_vars: &str) -> (m: HashMap<String, String>)
    ensures
        string_map(m) == match json_read_string_map(env_vars@) {
            Some(parsed) => parsed,
            None => Map::<Seq<char>, Seq<char>>::empty(),
        },
{
    match read_json_string_map(env_vars) {
        Some(m) => m,
        None => map_new(),
    }
}

/// What a process is started with.
#[derive(Debug, Clone, PartialEq)]
pub struct Launch {
    pub working_dir: String,
    pub command: String,
    /// JSON object text.
    pub env_vars: String,
}

pub open spec fn launch_view(l: Launch) -> (Seq<char>, Seq<char>, Seq<char>) {
    (l.working_dir@, l.command@, l.env_vars@)
}

/// What starting an app comes to.
#[derive(Debug, Clone, PartialEq)]
pub enum StartPlan {
    /// A cron job: activate its scheduler, first run after this many seconds.
    Schedule(u64),
    /// Ask for template values first.
    AskValues,
    /// Start the process.
    Start(Launch),
    /// Report this alert and start nothing.
    Alert(String),
}

/// A start plan as plain values.
pub ghost enum StartPlanView {
    Schedule(u64),
    AskValues,
    Start((Seq<char>, Seq<char>, Seq<char>)),
    Alert(Seq<char>),
}

pub open spec fn plan_view(p: StartPlan) -> StartPlanView {
    match p {
        StartPlan::Schedule(n) => StartPlanView::Schedule(n),
        StartPlan::AskValues => StartPlanView::AskValues,
        StartPlan::Start(l) => StartPlanView::Start(launch_view(l)),
        StartPlan::Alert(m) => StartPlanView::Alert(m@),
    }
}

/// A text with its placeholders filled in, or unchanged where one has no
/// value.
pub open spec fn subst_or_keep(input: Seq<char>, vals: Map<Seq<char>, Seq<char>>) -> Seq<char> {
    match first_missing(placeholder_names(input), vals) {
        Some(_) => input,
        None => subst_from(input, 0, vals),
    }
}

/// The launch of an app with its placeholders filled in from `vals`.
pub open spec fn launch_spec(app: AppConfig, vals: Map<Seq<char>, Seq<char>>) -> (
    Seq<char>,
    Seq<char>,
    Seq<char>,
) {
    (
        subst_or_keep(app.working_dir@, vals),
        subst_or_keep(app.command@, vals),
        subst_or_keep(app.env_vars@, vals),
    )
}

/// The launch of an app as stored.
pub open spec fn plain_launch(app: AppConfig) -> (Seq<char>, Seq<char>, Seq<char>) {
    (app.working_dir@, app.command@, app.env_vars@)
}

/// The interval of a cron job in seconds: its own, else a minute.
pub open spec fn interval_secs(app: AppConfig) -> u64 {
    match app.interval_seconds {
        Some(n) => n as u64,
        None => 60,
    }
}

/// Fills in the placeholders of `input`; keeps it as it is where one has
/// no value.
pub fn substitute_or_keep(input: &str, values: &HashMap<String, String>) -> (r: String)
    ensures
        r@ == subst_or_keep(input@, string_map(*values)),
{
    match substitute(input, values) {
        Ok(s) => s,
        Err(_) => to_owned_string(input),
    }
}

/// The launch of an app with its placeholders filled in from `values`.
pub fn launch_with(app: &AppConfig, values: &HashMap<String, String>) -> (l: Launch)
    ensures
        launch_view(l) == launch_spec(*app, string_map(*values)),
{
    Launch {
        working_dir: substitute_or_keep(app.working_dir.as_str(), values),
        command: substitute_or_keep(app.command.as_str(), values),
        env_vars: substitute_or_keep(app.env_vars.as_str(), values),
    }
}

pub(crate) fn plain(app: &AppConfig) -> (l: Launch)
    ensures
        launch_view(l) == plain_launch(*app),
{
    Launch {
        working_dir: app.working_dir.clone(),
        command: app.command.clone(),
        env_vars: app.env_vars.clone(),
    }
}

pub(crate) fn interval_of(app: &AppConfig) -> (n: u64)
    ensures
        n == interval_secs(*app),
{
    match app.interval_seconds {
        Some(n) => n as u64,
        None => 60,
    }
}

/// The defaults of an app's template variables, with no overrides.
pub open spec fn defaults_resolved(app: AppConfig) -> Result<Map<Seq<char>, Seq<char>>, Seq<char>> {
    resolve_spec(vars_view(app.template_vars@), Map::empty())
}

/// What the start key does with an app: a cron job is scheduled; an app
/// with required template variables asks for values; one with template
/// variables starts with their defaults filled in; any other starts as
/// stored.
pub open spec fn start_spec(app: AppConfig) -> StartPlanView {
    if app.interval_seconds is Some {
        StartPlanView::Schedule(interval_secs(app))
    } else if any_required(vars_view(app.template_vars@)) {
        StartPlanView::AskValues
    } else if app.template_vars.len() > 0 {
        match defaults_resolved(app) {
            Ok(vals) => StartPlanView::Start(launch_spec(app, vals)),
            Err(name) => StartPlanView::Alert(
                "Template error for "@ + app.name@ + ": "@ + required_text(name),
            ),
        }
    } else {
        StartPlanView::Start(plain_launch(app))
    }
}

/// What auto-start does with an app when the program starts: an app with
/// required template variables is reported and skipped; a cron job is
/// scheduled; one with template variables starts with their defaults filled
/// in; any other starts as stored.
pub open spec fn auto_start_spec(app: AppConfig) -> StartPlanView {
    if any_required(vars_view(app.template_vars@)) {
        StartPlanView::Alert("App '"@ + app.name@ + "' requires input before starting"@)
    } else if app.interval_seconds is Some {
        StartPlanView::Schedule(interval_secs(app))
    } else if app.template_vars.len() > 0 {
        match defaults_resolved(app) {
            Ok(vals) => StartPlanView::Start(launch_spec(app, vals)),
            Err(name) => StartPlanView::Alert(
                "Failed to resolve template vars for app "@ + signed_decimal(app.id as int) + ": "@
                    + required_text(name),
            ),
        }
    } else {
        StartPlanView::Start(plain_launch(app))
    }
}

/// Decides what the start key does with an app.
pub fn plan_start(app: &AppConfig) -> (p: StartPlan)
    ensures
        plan_view(p) == start_spec(*app),
{
    if app.is_cron() {
        return StartPlan::Schedule(interval_of(app));
    }
    if app.has_required_template_vars() {
        return StartPlan::AskValues;
    }
    if app.has_template_vars() {
        let empty = map_new();
        assert(string_map(empty) =~= Map::<Seq<char>, Seq<char>>::empty());
        match resolve_values(app.template_vars.as_slice(), &empty) {
            Ok(values) => StartPlan::Start(launch_with(app, &values)),
            Err(e) => {
                let mut m = to_owned_string("Template error for ");
                push_str(&mut m, app.name.as_str());
                push_str(&mut m, ": ");
                let em = e.message();
                push_str(&mut m, em.as_str());
                StartPlan::Alert(m)
            },
        }
    } else {
        StartPlan::Start(plain(app))
    }
}

/// Decides what auto-start does with an app when the program starts.
pub fn plan_auto_start(app: &AppConfig) -> (p: StartPlan)
    ensures
        plan_view(p) == auto_start_spec(*app),
{
    if app.has_required_template_vars() {
        let mut m = to_owned_string("App '");
        push_str(&mut m, app.name.as_str());
        push_str(&mut m, "' requires input before starting");
        return StartPlan::Alert(m);
    }
    if app.is_cron() {
        return StartPlan::Schedule(interval_of(app));
    }
    if app.has_template_vars() {
        let empty = map_new();
        assert(string_map(empty) =~= Map::<Seq<char>, Seq<char>>::empty());
        match resolve_values(app.template_vars.as_slice(), &empty) {
            Ok(values) => StartPlan::Start(launch_with(app, &values)),
            Err(e) => {
                let mut m = to_owned_string("Failed to resolve template vars for app ");
                let id = i64_to_string(app.id);
                push_str(&mut m, id.as_str());
                push_str(&mut m, ": ");
                let em = e.message();
                push_str(&mut m, em.as_str());
                StartPlan::Alert(m)
            },
        }
    } else {
        StartPlan::Start(plain(app))
    }
}


/// Whether `handle_template_modal_key` can take `key`: the focused value
/// exists, and every edit it would make starts on a character boundary
/// (`String::insert` and `String::remove` panic elsewhere).
pub fn modal_key_allowed(modal: &TemplateModal, key: KeyInput) -> (b: bool)
    ensures
        b == modal_key_ok(modal@, key),
{
    if key.ctrl && key.code == KeyCode::Char('c') {
        return true;
    }
    let n = modal.vars.len();
    let cf = modal.current_field;
    match key.code {
        KeyCode::Tab => {
            if n == 0 {
                return true;
            }
            cf < usize::MAX && (cf + 1) % n < modal.values.len()
        },
        KeyCode::BackTab => {
            if n == 0 {
                return true;
            }
            let p = if cf == 0 {
                n - 1
            } else {
                cf - 1
            };
            p < modal.values.len()
        },
        KeyCode::Char(_) => {
            if cf >= modal.values.len() {
                return false;
            }
            let len = string_byte_len(&modal.values[cf]);
            modal.cursor_pos <= len && crate::text::str_is_char_boundary(
                modal.values[cf].as_str(),
                modal.cursor_pos,
            )
        },
        KeyCode::Backspace => {
            if modal.cursor_pos == 0 {
                return true;
            }
            if cf >= modal.values.len() {
                return false;
            }
            let len = string_byte_len(&modal.values[cf]);
            modal.cursor_pos - 1 < len && crate::text::str_is_char_boundary(
                modal.values[cf].as_str(),
                modal.cursor_pos - 1,
            )
        },
        KeyCode::Right => cf < modal.values.len(),
        _ => true,
    }
}


// ---------------------------------------------------------------------------
// What the lists show.
// ---------------------------------------------------------------------------

/// The status an app shows in the list.
#[derive(Debug, Clone, Copy, PartialEq, Eq, Structural)]
pub enum StatusIcon {
    Running,
    Stopped,
    Crashed,
    Attached,
    Starting,
    /// Has required template variables and was never started.
    PendingInput,
    /// A cron job whose run is under way.
    CronRunning,
    /// A cron job that is scheduled.
    CronScheduled,
}

/// The status an app shows, from whether it is a cron job, whether its
/// scheduler is active, its process state (if it has a process) and
/// whether it has required template variables.
pub open spec fn status_icon_spec(
    is_cron: bool,
    cron_active: bool,
    state: Option<&ProcessState>,
    needs_input: bool,
) -> StatusIcon {
    if is_cron {
        match state {
            Some(s) => if *s is Running {
                StatusIcon::CronRunning
            } else if cron_active {
                StatusIcon::CronScheduled
            } else {
                StatusIcon::Stopped
            },
            None => if cron_active {
                StatusIcon::CronScheduled
            } else {
                StatusIcon::Stopped
            },
        }
    } else {
        match state {
            Some(s) => match *s {
                ProcessState::Running { .. } => StatusIcon::Running,
                ProcessState::Stopped => StatusIcon::Stopped,
                ProcessState::Crashed { .. } => StatusIcon::Crashed,
                ProcessState::Attached => StatusIcon::Attached,
                ProcessState::Starting => StatusIcon::Starting,
            },
            None => if needs_input {
                StatusIcon::PendingInput
            } else {
                StatusIcon::Stopped
            },
        }
    }
}

/// The status an app shows in the list.
pub fn app_status_icon(
    is_cron: bool,
    cron_active: bool,
    state: Option<&ProcessState>,
    needs_input: bool,
) -> (i: StatusIcon)
    ensures
        i == status_icon_spec(is_cron, cron_active, state, needs_input),
{
    if is_cron {
        match state {
            Some(s) => {
                if s.is_running() {
                    StatusIcon::CronRunning
                } else if cron_active {
                    StatusIcon::CronScheduled
                } else {
                    StatusIcon::Stopped
                }
            },
            None => {
                if cron_active {
                    StatusIcon::CronScheduled
                } else {
                    StatusIcon::Stopped
                }
            },
        }
    } else {
        match state {
            Some(s) => match s {
                ProcessState::Running { .. } => StatusIcon::Running,
                ProcessState::Stopped => StatusIcon::Stopped,
                ProcessState::Crashed { .. } => StatusIcon::Crashed,
                ProcessState::Attached => StatusIcon::Attached,
                ProcessState::Starting => StatusIcon::Starting,
            },
            None => {
                if needs_input {
                    StatusIcon::PendingInput
                } else {
                    StatusIcon::Stopped
                }
            },
        }
    }
}

/// The time left before a cron job's next run: minutes and seconds, or
/// seconds alone under a minute.
pub open spec fn countdown_spec(remaining: nat) -> Seq<char> {
    if remaining / 60 > 0 {
        decimal(remaining / 60) + "m"@ + decimal(remaining % 60) + "s"@
    } else {
        decimal(remaining % 60) + "s"@
    }
}

/// The countdown shown for a scheduled cron job.
pub fn countdown_text(remaining_secs: u64) -> (s: String)
    ensures
        s@ == countdown_spec(remaining_secs as nat),
{
    let mins = remaining_secs / 60;
    let secs = remaining_secs % 60;
    let mut s = String::new();
    if mins > 0 {
        push_decimal(&mut s, mins);
        push_str(&mut s, "m");
    }
    push_decimal(&mut s, secs);
    push_str(&mut s, "s");
    s
}

/// What the sidebar shows for a cron job: "run" while a run is under way;
/// when scheduled, the countdown to the next run (milliseconds on the loop's
/// clock, shown in whole seconds), "due" once it has come, or a dash where
/// no run is set; "off" when not scheduled.
pub open spec fn cron_label_spec(running: bool, active: bool, next_fire: Option<u64>, now: u64) -> Seq<char> {
    if running {
        "run"@
    } else if active {
        match next_fire {
            Some(t) => if t > now {
                countdown_spec(((t - now) / 1000) as nat)
            } else {
                "due"@
            },
            None => "\u{2014}"@,
        }
    } else {
        "off"@
    }
}

/// The sidebar text of a cron job.
pub fn cron_label(running: bool, active: bool, next_fire: Option<u64>, now: u64) -> (s: String)
    ensures
        s@ == cron_label_spec(running, active, next_fire, now),
{
    if running {
        to_owned_string("run")
    } else if active {
        match next_fire {
            Some(t) => {
                if t > now {
                    countdown_text((t - now) / 1000)
                } else {
                    to_owned_string("due")
                }
            },
            None => to_owned_string("\u{2014}"),
        }
    } else {
        to_owned_string("off")
    }
}

/// The rows of a log of `total` entries shown in a pane `height` rows
/// high, scrolled to `offset`: the window never runs past the end.
pub open spec fn log_window_spec(offset: int, total: int, height: int) -> (int, int) {
    let last_start = if total > height {
        total - height
    } else {
        0
    };
    let start = if offset < last_start {
        offset
    } else {
        last_start
    };
    let end = if start + height < total {
        start + height
    } else {
        total
    };
    (start, end)
}

/// The first and one-past-last entry of a log shown in a pane.
pub fn log_window(offset: usize, total: usize, height: usize) -> (r: (usize, usize))
    ensures
        (r.0 as int, r.1 as int) == log_window_spec(offset as int, total as int, height as int),
        r.0 <= r.1 <= total,
{
    let last_start = total.saturating_sub(height);
    let start = if offset < last_start {
        offset
    } else {
        last_start
    };
    let end = if height < total - start {
        start + height
    } else {
        total
    };
    (start, end)
}

/// The key hints of the status bar for a tab and focus.
pub open spec fn status_hint_spec(tab: ActiveTab, focus: FocusMode) -> Seq<char> {
    let t = match tab {
        ActiveTab::Apps => "[1:Apps] 2:Masks"@,
        ActiveTab::Masks => " 1:Apps [2:Masks]"@,
    };
    let k = match focus {
        FocusMode::AppList => " [s]tart [x]top [r]estart [a]ttach [n]ew [e]dit [d]el [?]help [q]uit"@,
        FocusMode::OutputPane => " [j/k]scroll [G]bottom [g]top [Esc]back [q]uit"@,
        FocusMode::Help => " [Esc/q/?] close help"@,
        FocusMode::Form | FocusMode::MaskForm => " [Tab]next [Shift+Tab]prev [Ctrl+B]browse [Esc]cancel [Enter]save"@,
        FocusMode::MaskList => " [s]activate [x]deactivate [n]ew [e]dit [d]el [?]help [q]uit"@,
        FocusMode::MaskLog => " [j/k]scroll [G]bottom [g]top [Esc]back [q]uit"@,
    };
    t + " |"@ + k
}

/// The key hints of the status bar.
pub fn status_hint(tab: ActiveTab, focus: FocusMode) -> (s: String)
    ensures
        s@ == status_hint_spec(tab, focus),
{
    let mut s = match tab {
        ActiveTab::Apps => to_owned_string("[1:Apps] 2:Masks"),
        ActiveTab::Masks => to_owned_string(" 1:Apps [2:Masks]"),
    };
    push_str(&mut s, " |");
    let k = match focus {
        FocusMode::AppList => " [s]tart [x]top [r]estart [a]ttach [n]ew [e]dit [d]el [?]help [q]uit",
        FocusMode::OutputPane => " [j/k]scroll [G]bottom [g]top [Esc]back [q]uit",
        FocusMode::Help => " [Esc/q/?] close help",
        FocusMode::Form | FocusMode::MaskForm => " [Tab]next [Shift+Tab]prev [Ctrl+B]browse [Esc]cancel [Enter]save",
        FocusMode::MaskList => " [s]activate [x]deactivate [n]ew [e]dit [d]el [?]help [q]uit",
        FocusMode::MaskLog => " [j/k]scroll [G]bottom [g]top [Esc]back [q]uit",
    };
    push_str(&mut s, k);
    s
}

} // verus!
