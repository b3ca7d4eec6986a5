//! New/edit app form with inline validation.

use vstd::prelude::*;

use crate::db::models::{AppConfig, NewApp};
use crate::json::{json_read, json_write_object, read_json, write_json_object};
use crate::process::health::{
    check_app_health, errors_view, health_errors, health_message, DirStatus, HealthError,
};
use crate::template::{
    clone_vars, dedup, extract_variables_from_fields, fields_names, sync_template_vars,
    synced_vars, vars_view, TemplateVar, TemplateVarView,
};
use crate::text::{
    byte_len, char_boundary, find_char, i64_to_string, insert_at_byte, is_blank, join_strings,
    join_with, next_index, parse_i64, parse_i64_spec, push_str, remove_at_byte, signed_decimal,
    split_on, split_string, str_eq, string_byte_len, string_insert, string_remove, to_owned_string,
    trim, trim_string,
};
use crate::tui::input::{KeyCode, KeyInput};

verus! {

/// Which field is currently focused in the form.
#[derive(Debug, Clone, Copy, PartialEq, Eq, Structural)]
pub enum FormField {
    Name,
    WorkingDir,
    Command,
    EnvVars,
    AutoStart,
    MaxRuntime,
    Interval,
}

/// Actions returned from form key handling.
#[derive(Debug, Clone, PartialEq)]
pub enum FormAction {
    Continue,
    Save(NewApp),
    Cancel,
    OpenFileBrowser,
}

/// Mutable form state for creating or editing an app.
#[derive(Debug, Clone)]
pub struct FormState {
    pub fields: Vec<FormField>,
    pub current_field: usize,
    pub name: String,
    pub working_dir: String,
    pub command: String,
    pub env_vars: String,
    pub auto_start: bool,
    pub max_runtime: String,
    pub interval: String,
    pub errors: Vec<String>,
    pub editing: bool,
    pub edit_id: Option<i64>,
    pub cursor_pos: usize,
    pub template_vars: Vec<TemplateVar>,
}

/// The form as plain values.
pub ghost struct FormView {
    pub fields: Seq<FormField>,
    pub current_field: int,
    pub name: Seq<char>,
    pub working_dir: Seq<char>,
    pub command: Seq<char>,
    pub env_vars: Seq<char>,
    pub auto_start: bool,
    pub max_runtime: Seq<char>,
    pub interval: Seq<char>,
    pub errors: Seq<Seq<char>>,
    pub editing: bool,
    pub edit_id: Option<i64>,
    pub cursor_pos: int,
    pub template_vars: Seq<TemplateVarView>,
}

pub open spec fn strings_view(v: Seq<String>) -> Seq<Seq<char>> {
    v.map_values(|s: String| s@)
}

impl View for FormState {
    type V = FormView;

    open spec fn view(&self) -> FormView {
        FormView {
            fields: self.fields@,
            current_field: self.current_field as int,
            name: self.name@,
            working_dir: self.working_dir@,
            command: self.command@,
            env_vars: self.env_vars@,
            auto_start: self.auto_start,
            max_runtime: self.max_runtime@,
            interval: self.interval@,
            errors: strings_view(self.errors@),
            editing: self.editing,
            edit_id: self.edit_id,
            cursor_pos: self.cursor_pos as int,
            template_vars: vars_view(self.template_vars@),
        }
    }
}

/// A new app record as plain values.
pub ghost struct NewAppView {
    pub name: Seq<char>,
    pub working_dir: Seq<char>,
    pub command: Seq<char>,
    pub env_vars: Seq<char>,
    pub auto_start: bool,
    pub max_runtime_secs: Option<i64>,
    pub interval_seconds: Option<i64>,
    pub template_vars: Seq<TemplateVarView>,
}

pub open spec fn new_app_view(a: NewApp) -> NewAppView {
    NewAppView {
        name: a.name@,
        working_dir: a.working_dir@,
        command: a.command@,
        env_vars: a.env_vars@,
        auto_start: a.auto_start,
        max_runtime_secs: a.max_runtime_secs,
        interval_seconds: a.interval_seconds,
        template_vars: vars_view(a.template_vars@),
    }
}

/// A form action as plain values.
pub ghost enum FormActionView {
    Continue,
    Save(NewAppView),
    Cancel,
    OpenFileBrowser,
}

pub open spec fn action_view(a: FormAction) -> FormActionView {
    match a {
        FormAction::Continue => FormActionView::Continue,
        FormAction::Save(n) => FormActionView::Save(new_app_view(n)),
        FormAction::Cancel => FormActionView::Cancel,
        FormAction::OpenFileBrowser => FormActionView::OpenFileBrowser,
    }
}

/// The seven fields, in form order.
pub open spec fn all_fields() -> Seq<FormField> {
    seq![
        FormField::Name,
        FormField::WorkingDir,
        FormField::Command,
        FormField::EnvVars,
        FormField::AutoStart,
        FormField::MaxRuntime,
        FormField::Interval,
    ]
}

fn field_list() -> (v: Vec<FormField>)
    ensures
        v@ == all_fields(),
{
    let mut v: Vec<FormField> = Vec::new();
    v.push(FormField::Name);
    v.push(FormField::WorkingDir);
    v.push(FormField::Command);
    v.push(FormField::EnvVars);
    v.push(FormField::AutoStart);
    v.push(FormField::MaxRuntime);
    v.push(FormField::Interval);
    assert(v@ =~= all_fields());
    v
}

// ---------------------------------------------------------------------------
// Env var text: "KEY=VALUE,KEY2=VALUE2" and its JSON object form.
// ---------------------------------------------------------------------------

/// The pair one comma-separated piece contributes: trimmed, split at its
/// first `=`, key and value trimmed; none for a blank piece, a piece without
/// `=`, or an empty key.
pub open spec fn env_pair(part: Seq<char>) -> Option<(Seq<char>, Seq<char>)> {
    let p = trim(part);
    if p.len() == 0 {
        None
    } else {
        match next_index(p, '=', 0) {
            None => None,
            Some(k) => {
                let key = trim(p.take(k));
                if key.len() == 0 {
                    None
                } else {
                    Some((key, trim(p.skip(k + 1))))
                }
            },
        }
    }
}

/// The pairs of a list of pieces, in order.
pub open spec fn env_pairs(parts: Seq<Seq<char>>) -> Seq<(Seq<char>, Seq<char>)>
    decreases parts.len(),
{
    if parts.len() == 0 {
        Seq::empty()
    } else {
        let prev = env_pairs(parts.drop_last());
        match env_pair(parts.last()) {
            Some(x) => prev.push(x),
            None => prev,
        }
    }
}

/// The JSON text of "KEY=VALUE,..." input: `{}` for blank input, else the
/// object of its pairs.
pub open spec fn env_json(input: Seq<char>) -> Seq<char> {
    if trim(input).len() == 0 {
        "{}"@
    } else {
        json_write_object(env_pairs(split_on(trim(input), ',')))
    }
}

/// The "KEY=VALUE,..." display of a JSON object text: empty for blank text,
/// `{}` or anything that is not an object.
pub open spec fn env_display(json: Seq<char>) -> Seq<char> {
    let t = trim(json);
    if t.len() == 0 || t == "{}"@ {
        Seq::empty()
    } else {
        match json_read(t) {
            Ok(Some(entries)) => join_with(
                entries.map_values(|e: (Seq<char>, Seq<char>)| e.0 + "="@ + e.1),
                ","@,
            ),
            _ => Seq::empty(),
        }
    }
}

fn env_piece(part: &str) -> (r: Option<(String, String)>)
    ensures
        match env_pair(part@) {
            Some(x) => r matches Some(y) && y.0@ == x.0 && y.1@ == x.1,
            None => r is None,
        },
{
    let p = trim_string(part);
    let n = p.as_str().unicode_len();
    if n == 0 {
        return None;
    }
    proof {
        crate::text::lemma_next_index(p@, '=', 0);
    }
    match find_char(p.as_str(), '=', 0) {
        None => None,
        Some(k) => {
            let key = trim_string(p.as_str().substring_char(0, k));
            let value = trim_string(p.as_str().substring_char(k + 1, n));
            assert(p@.subrange(0, k as int) =~= p@.take(k as int));
            assert(p@.subrange(k + 1, n as int) =~= p@.skip(k + 1));
            if key.as_str().unicode_len() == 0 {
                None
            } else {
                Some((key, value))
            }
        },
    }
}

/// Convert "KEY=VALUE,KEY2=VALUE2" format to JSON object string.
pub fn env_string_to_json(input: &str) -> (r: String)
    ensures
        r@ == env_json(input@),
{
    let trimmed = trim_string(input);
    if trimmed.as_str().unicode_len() == 0 {
        return to_owned_string("{}");
    }
    let parts = split_string(trimmed.as_str(), ',');
    let ghost pv = parts@.map_values(|x: String| x@);
    let mut pairs: Vec<(String, String)> = Vec::new();
    let mut i: usize = 0;
    assert(pv.take(0) =~= Seq::<Seq<char>>::empty());
    while i < parts.len()
        invariant
            i <= parts.len(),
            pv == parts@.map_values(|x: String| x@),
            crate::json::pairs_view(pairs@) == env_pairs(pv.take(i as int)),
        decreases parts.len() - i,
    {
        assert(pv.take(i + 1).drop_last() =~= pv.take(i as int));
        assert(pv.take(i + 1).last() == parts@[i as int]@);
        match env_piece(parts[i].as_str()) {
            Some(kv) => {
                pairs.push(kv);
                assert(crate::json::pairs_view(pairs@) =~= env_pairs(pv.take(i + 1)));
            },
            None => {},
        }
        i = i + 1;
    }
    assert(pv.take(parts.len() as int) =~= pv);
    match write_json_object(&pairs) {
        Some(s) => s,
        None => to_owned_string("{}"),
    }
}

/// Convert JSON object string back to "KEY=VALUE,KEY2=VALUE2" format for
/// display.
pub fn json_to_env_string(json_str: &str) -> (r: String)
    ensures
        r@ == env_display(json_str@),
{
    let trimmed = trim_string(json_str);
    if trimmed.as_str().unicode_len() == 0 || str_eq(trimmed.as_str(), "{}") {
        return String::new();
    }
    match read_json(trimmed.as_str()) {
        Ok(Some(entries)) => {
            let ghost ev = crate::json::pairs_view(entries@);
            let mut pieces: Vec<String> = Vec::new();
            let mut i: usize = 0;
            while i < entries.len()
                invariant
                    i <= entries.len(),
                    ev == crate::json::pairs_view(entries@),
                    pieces.len() == i,
                    forall|j: int|
                        0 <= j < i ==> #[trigger] pieces@[j]@ == ev[j].0 + "="@ + ev[j].1,
                decreases entries.len() - i,
            {
                let mut piece = entries[i].0.clone();
                push_str(&mut piece, "=");
                push_str(&mut piece, entries[i].1.as_str());
                pieces.push(piece);
                i = i + 1;
            }
            assert(pieces@.map_values(|x: String| x@) =~= ev.map_values(
                |e: (Seq<char>, Seq<char>)| e.0 + "="@ + e.1,
            ));
            join_strings(&pieces, ",")
        },
        _ => String::new(),
    }
}

// ---------------------------------------------------------------------------
// The form as a state machine over `FormView`.
// ---------------------------------------------------------------------------

/// The text of a field (`true`/`false` for the auto-start toggle).
pub open spec fn value_of(v: FormView, f: FormField) -> Seq<char> {
    match f {
        FormField::Name => v.name,
        FormField::WorkingDir => v.working_dir,
        FormField::Command => v.command,
        FormField::EnvVars => v.env_vars,
        FormField::AutoStart => if v.auto_start {
            "true"@
        } else {
            "false"@
        },
        FormField::MaxRuntime => v.max_runtime,
        FormField::Interval => v.interval,
    }
}

/// The form with the text of field `f` set to `s` (the auto-start toggle has
/// no text; its slot is the name).
pub open spec fn with_value(v: FormView, f: FormField, s: Seq<char>) -> FormView {
    match f {
        FormField::Name | FormField::AutoStart => FormView { name: s, ..v },
        FormField::WorkingDir => FormView { working_dir: s, ..v },
        FormField::Command => FormView { command: s, ..v },
        FormField::EnvVars => FormView { env_vars: s, ..v },
        FormField::MaxRuntime => FormView { max_runtime: s, ..v },
        FormField::Interval => FormView { interval: s, ..v },
    }
}

/// The text that field `f` edits: its value, or the name for the
/// auto-start toggle, which has no text of its own.
pub open spec fn slot_of(v: FormView, f: FormField) -> Seq<char> {
    match f {
        FormField::AutoStart => v.name,
        _ => value_of(v, f),
    }
}

/// The focused field.
pub open spec fn focused(v: FormView) -> FormField {
    v.fields[v.current_field]
}

/// Whether the focused field index is in range.
pub open spec fn focus_ok(v: FormView) -> bool {
    0 <= v.current_field < v.fields.len()
}

pub open spec fn next_field_v(v: FormView) -> FormView {
    let cf = (v.current_field + 1) % (v.fields.len() as int);
    FormView { current_field: cf, cursor_pos: byte_len(value_of(v, v.fields[cf])) as int, ..v }
}

pub open spec fn prev_field_v(v: FormView) -> FormView {
    let cf = if v.current_field == 0 {
        v.fields.len() - 1
    } else {
        v.current_field - 1
    };
    FormView { current_field: cf, cursor_pos: byte_len(value_of(v, v.fields[cf])) as int, ..v }
}

pub open spec fn min_int(a: int, b: int) -> int {
    if a <= b {
        a
    } else {
        b
    }
}

/// Where a typed character goes: the cursor, clamped to the field's end.
pub open spec fn insert_pos(v: FormView) -> int {
    min_int(v.cursor_pos, byte_len(value_of(v, focused(v))) as int)
}

/// Typing is possible where the insertion point is a character boundary
/// (`String::insert` panics elsewhere).
pub open spec fn insert_ok(v: FormView) -> bool {
    focused(v) != FormField::AutoStart ==> char_boundary(value_of(v, focused(v)), insert_pos(v))
}

pub open spec fn insert_char_v(v: FormView, c: char) -> FormView {
    if focused(v) == FormField::AutoStart {
        v
    } else {
        let pos = insert_pos(v);
        FormView {
            cursor_pos: pos + 1,
            ..with_value(v, focused(v), insert_at_byte(value_of(v, focused(v)), pos, c))
        }
    }
}

/// Backspace is possible where the byte before the cursor starts a
/// character (`String::remove` panics elsewhere).
pub open spec fn delete_ok(v: FormView) -> bool {
    focused(v) != FormField::AutoStart && v.cursor_pos > 0 ==> v.cursor_pos - 1 < byte_len(
        value_of(v, focused(v)),
    ) && char_boundary(value_of(v, focused(v)), v.cursor_pos - 1)
}

pub open spec fn delete_char_v(v: FormView) -> FormView {
    if focused(v) == FormField::AutoStart || v.cursor_pos <= 0 {
        v
    } else {
        FormView {
            cursor_pos: v.cursor_pos - 1,
            ..with_value(v, focused(v), remove_at_byte(value_of(v, focused(v)), v.cursor_pos - 1))
        }
    }
}

pub open spec fn move_left_v(v: FormView) -> FormView {
    if v.cursor_pos > 0 {
        FormView { cursor_pos: v.cursor_pos - 1, ..v }
    } else {
        v
    }
}

pub open spec fn move_right_v(v: FormView) -> FormView {
    if v.cursor_pos < byte_len(value_of(v, focused(v))) {
        FormView { cursor_pos: v.cursor_pos + 1, ..v }
    } else {
        v
    }
}

pub open spec fn toggle_v(v: FormView) -> FormView {
    FormView { auto_start: !v.auto_start, ..v }
}

/// Errors for a positive-number field: none when blank, one when it is not
/// an `i64` and one when it is not positive.
pub open spec fn positive_errors(s: Seq<char>, not_positive: Seq<char>, not_number: Seq<char>) -> Seq<
    Seq<char>,
> {
    let t = trim(s);
    if t.len() == 0 {
        Seq::empty()
    } else {
        match parse_i64_spec(t) {
            Some(x) => if x <= 0 {
                seq![not_positive]
            } else {
                Seq::empty()
            },
            None => seq![not_number],
        }
    }
}

/// The validation messages of a form, given what the file system and `PATH`
/// said (see [`health_errors`]).
pub open spec fn validation_errors(v: FormView, dir: DirStatus, found: bool) -> Seq<Seq<char>> {
    let name_errs: Seq<Seq<char>> = if trim(v.name).len() == 0 {
        seq!["Name cannot be empty"@]
    } else {
        Seq::empty()
    };
    let health = health_errors(v.working_dir, dir, v.command, found, env_json(v.env_vars));
    name_errs + health.map_values(|e: (int, Seq<char>)| health_message(e)) + positive_errors(
        v.max_runtime,
        "Max runtime must be a positive number"@,
        "Max runtime must be a valid number"@,
    ) + positive_errors(
        v.interval,
        "Interval must be a positive number (seconds)"@,
        "Interval must be a valid number (seconds)"@,
    )
}

pub open spec fn validate_v(v: FormView, dir: DirStatus, found: bool) -> FormView {
    FormView { errors: validation_errors(v, dir, found), ..v }
}

/// A positive `i64` read from trimmed text, if it is one.
pub open spec fn positive_value(s: Seq<char>) -> Option<i64> {
    match parse_i64_spec(trim(s)) {
        Some(x) => if x > 0 {
            Some(x)
        } else {
            None
        },
        None => None,
    }
}

pub open spec fn to_new_app_v(v: FormView) -> NewAppView {
    NewAppView {
        name: trim(v.name),
        working_dir: trim(v.working_dir),
        command: trim(v.command),
        env_vars: env_json(v.env_vars),
        auto_start: v.auto_start,
        max_runtime_secs: positive_value(v.max_runtime),
        interval_seconds: positive_value(v.interval),
        template_vars: v.template_vars,
    }
}

/// The names detected in the command, working directory and env vars, in
/// that order.
pub open spec fn detected_names(v: FormView) -> Seq<Seq<char>> {
    dedup(fields_names(seq![v.command, v.working_dir, env_json(v.env_vars)]))
}

pub open spec fn detect_v(v: FormView) -> FormView {
    FormView { template_vars: synced_vars(v.template_vars, detected_names(v)), ..v }
}

/// Whether leaving the focused field re-detects template variables.
pub open spec fn detects_on_leave(f: FormField) -> bool {
    f == FormField::Command || f == FormField::WorkingDir || f == FormField::EnvVars
}

/// Whether `key` can be handled without panicking.
pub open spec fn form_key_ok(v: FormView, key: KeyInput) -> bool {
    if key.ctrl && key.code == KeyCode::Char('c') {
        true
    } else if key.ctrl && key.code == KeyCode::Char('b') && !focus_ok(v) {
        false
    } else if key.ctrl && key.code == KeyCode::Char('b') && focused(v) == FormField::WorkingDir {
        true
    } else {
        match key.code {
            KeyCode::Tab => focus_ok(v),
            KeyCode::BackTab => focus_ok(v),
            KeyCode::Char(c) => focus_ok(v) && (c == ' ' && focused(v) == FormField::AutoStart
                || insert_ok(v)),
            KeyCode::Backspace => focus_ok(v) && delete_ok(v),
            KeyCode::Right => focus_ok(v),
            _ => true,
        }
    }
}

/// The form after a key and the action it produces, given what validation
/// observed of the file system and `PATH`.
pub open spec fn form_key_spec(v: FormView, key: KeyInput, dir: DirStatus, found: bool) -> (
    FormView,
    FormActionView,
) {
    if key.ctrl && key.code == KeyCode::Char('c') {
        (v, FormActionView::Cancel)
    } else if key.ctrl && key.code == KeyCode::Char('b') && focused(v) == FormField::WorkingDir {
        (v, FormActionView::OpenFileBrowser)
    } else {
        match key.code {
            KeyCode::Esc => (v, FormActionView::Cancel),
            KeyCode::Tab => {
                let d = if detects_on_leave(focused(v)) {
                    detect_v(v)
                } else {
                    v
                };
                if key.shift {
                    (prev_field_v(d), FormActionView::Continue)
                } else {
                    (next_field_v(d), FormActionView::Continue)
                }
            },
            KeyCode::BackTab => {
                let d = if detects_on_leave(focused(v)) {
                    detect_v(v)
                } else {
                    v
                };
                (prev_field_v(d), FormActionView::Continue)
            },
            KeyCode::Enter => {
                let w = validate_v(v, dir, found);
                if w.errors.len() == 0 {
                    (w, FormActionView::Save(to_new_app_v(w)))
                } else {
                    (w, FormActionView::Continue)
                }
            },
            KeyCode::Char(c) => if c == ' ' && focused(v) == FormField::AutoStart {
                (toggle_v(v), FormActionView::Continue)
            } else {
                (insert_char_v(v, c), FormActionView::Continue)
            },
            KeyCode::Backspace => (delete_char_v(v), FormActionView::Continue),
            KeyCode::Left => (move_left_v(v), FormActionView::Continue),
            KeyCode::Right => (move_right_v(v), FormActionView::Continue),
            _ => (v, FormActionView::Continue),
        }
    }
}

fn opt_i64_string(o: Option<i64>) -> (s: String)
    ensures
        s@ == match o {
            Some(x) => signed_decimal(x as int),
            None => Seq::empty(),
        },
{
    match o {
        Some(x) => i64_to_string(x),
        None => String::new(),
    }
}

impl FormState {
    /// Create an empty form for a new app.
    pub fn new() -> (f: Self)
        ensures
            f@ == (FormView {
                fields: all_fields(),
                current_field: 0,
                name: Seq::empty(),
                working_dir: Seq::empty(),
                command: Seq::empty(),
                env_vars: Seq::empty(),
                auto_start: false,
                max_runtime: Seq::empty(),
                interval: Seq::empty(),
                errors: Seq::empty(),
                editing: false,
                edit_id: None,
                cursor_pos: 0,
                template_vars: Seq::empty(),
            }),
    {
        let f = Self {
            fields: field_list(),
            current_field: 0,
            name: String::new(),
            working_dir: String::new(),
            command: String::new(),
            env_vars: String::new(),
            auto_start: false,
            max_runtime: String::new(),
            interval: String::new(),
            errors: Vec::new(),
            editing: false,
            edit_id: None,
            cursor_pos: 0,
            template_vars: Vec::new(),
        };
        assert(strings_view(f.errors@) =~= Seq::<Seq<char>>::empty());
        assert(vars_view(f.template_vars@) =~= Seq::<TemplateVarView>::empty());
        f
    }

    /// `Default`: an empty form.
    pub fn default() -> (f: Self)
        ensures
            f@ == Self::new_view(),
    {
        Self::new()
    }

    /// The view of an empty form.
    pub open spec fn new_view() -> FormView {
        FormView {
            fields: all_fields(),
            current_field: 0,
            name: Seq::empty(),
            working_dir: Seq::empty(),
            command: Seq::empty(),
            env_vars: Seq::empty(),
            auto_start: false,
            max_runtime: Seq::empty(),
            interval: Seq::empty(),
            errors: Seq::empty(),
            editing: false,
            edit_id: None,
            cursor_pos: 0,
            template_vars: Seq::empty(),
        }
    }

    /// Create a pre-filled form from an existing app config.
    pub fn from_app(app: &AppConfig) -> (f: Self)
        ensures
            f@ == (FormView {
                fields: all_fields(),
                current_field: 0,
                name: app.name@,
                working_dir: app.working_dir@,
                command: app.command@,
                env_vars: env_display(app.env_vars@),
                auto_start: app.auto_start,
                max_runtime: match app.max_runtime_secs {
                    Some(x) => signed_decimal(x as int),
                    None => Seq::empty(),
                },
                interval: match app.interval_seconds {
                    Some(x) => signed_decimal(x as int),
                    None => Seq::empty(),
                },
                errors: Seq::empty(),
                editing: true,
                edit_id: Some(app.id),
                cursor_pos: byte_len(app.name@) as int,
                template_vars: vars_view(app.template_vars@),
            }),
    {
        let env_display = json_to_env_string(app.env_vars.as_str());
        let max_runtime = opt_i64_string(app.max_runtime_secs);
        let interval = opt_i64_string(app.interval_seconds);
        let name_len = string_byte_len(&app.name);
        let f = Self {
            fields: field_list(),
            current_field: 0,
            name: app.name.clone(),
            working_dir: app.working_dir.clone(),
            command: app.command.clone(),
            env_vars: env_display,
            auto_start: app.auto_start,
            max_runtime,
            interval,
            errors: Vec::new(),
            editing: true,
            edit_id: Some(app.id),
            cursor_pos: name_len,
            template_vars: clone_vars(&app.template_vars),
        };
        assert(strings_view(f.errors@) =~= Seq::<Seq<char>>::empty());
        f
    }

    /// Get the value of the currently focused field.
    pub fn current_field_value(&self) -> (s: &str)
        requires
            focus_ok(self@),
        ensures
            s@ == value_of(self@, focused(self@)),
    {
        match self.fields[self.current_field] {
            FormField::Name => self.name.as_str(),
            FormField::WorkingDir => self.working_dir.as_str(),
            FormField::Command => self.command.as_str(),
            FormField::EnvVars => self.env_vars.as_str(),
            FormField::AutoStart => {
                if self.auto_start {
                    "true"
                } else {
                    "false"
                }
            },
            FormField::MaxRuntime => self.max_runtime.as_str(),
            FormField::Interval => self.interval.as_str(),
        }
    }

    /// The text of the focused field, to edit in place. The auto-start
    /// toggle has no text; its slot is the name.
    pub fn current_field_value_mut(&mut self) -> (r: &mut String)
        requires
            focus_ok(old(self)@),
        ensures
            r@ == slot_of(old(self)@, focused(old(self)@)),
            final(self)@ == with_value(old(self)@, focused(old(self)@), final(r)@),
    {
        match self.fields[self.current_field] {
            FormField::Name | FormField::AutoStart => &mut self.name,
            FormField::WorkingDir => &mut self.working_dir,
            FormField::Command => &mut self.command,
            FormField::EnvVars => &mut self.env_vars,
            FormField::MaxRuntime => &mut self.max_runtime,
            FormField::Interval => &mut self.interval,
        }
    }

    fn current_len(&self) -> (n: usize)
        requires
            focus_ok(self@),
        ensures
            n == byte_len(value_of(self@, focused(self@))),
            n <= isize::MAX,
    {
        crate::text::str_byte_len(self.current_field_value())
    }

    /// Move to the next field (wraps around).
    pub fn next_field(&mut self)
        requires
            old(self).fields.len() > 0,
            old(self).current_field < usize::MAX,
        ensures
            final(self)@ == next_field_v(old(self)@),
    {
        self.current_field = (self.current_field + 1) % self.fields.len();
        self.cursor_pos = self.current_len();
    }

    /// Move to the previous field (wraps around).
    pub fn prev_field(&mut self)
        requires
            old(self).fields.len() > 0,
            old(self).current_field <= old(self).fields.len(),
        ensures
            final(self)@ == prev_field_v(old(self)@),
    {
        if self.current_field == 0 {
            self.current_field = self.fields.len() - 1;
        } else {
            self.current_field -= 1;
        }
        self.cursor_pos = self.current_len();
    }

    /// Toggle auto_start (only meaningful when on the AutoStart field).
    pub fn toggle_auto_start(&mut self)
        ensures
            final(self)@ == toggle_v(old(self)@),
    {
        self.auto_start = !self.auto_start;
    }

    /// Insert a character at the cursor position in the current field.
    pub fn insert_char(&mut self, c: char)
        requires
            focus_ok(old(self)@),
            insert_ok(old(self)@),
        ensures
            final(self)@ == insert_char_v(old(self)@, c),
    {
        if self.fields[self.current_field] == FormField::AutoStart {
            return;
        }
        let len = self.current_len();
        if self.cursor_pos > len {
            self.cursor_pos = len;
        }
        let pos = self.cursor_pos;
        match self.fields[self.current_field] {
            FormField::Name | FormField::AutoStart => string_insert(&mut self.name, pos, c),
            FormField::WorkingDir => string_insert(&mut self.working_dir, pos, c),
            FormField::Command => string_insert(&mut self.command, pos, c),
            FormField::EnvVars => string_insert(&mut self.env_vars, pos, c),
            FormField::MaxRuntime => string_insert(&mut self.max_runtime, pos, c),
            FormField::Interval => string_insert(&mut self.interval, pos, c),
        }
        self.cursor_pos += 1;
    }

    /// Delete the character before the cursor (backspace).
    pub fn delete_char(&mut self)
        requires
            focus_ok(old(self)@),
            delete_ok(old(self)@),
        ensures
            final(self)@ == delete_char_v(old(self)@),
    {
        if self.fields[self.current_field] == FormField::AutoStart {
            return;
        }
        if self.cursor_pos > 0 {
            let pos = self.cursor_pos - 1;
            match self.fields[self.current_field] {
                FormField::Name | FormField::AutoStart => string_remove(&mut self.name, pos),
                FormField::WorkingDir => string_remove(&mut self.working_dir, pos),
                FormField::Command => string_remove(&mut self.command, pos),
                FormField::EnvVars => string_remove(&mut self.env_vars, pos),
                FormField::MaxRuntime => string_remove(&mut self.max_runtime, pos),
                FormField::Interval => string_remove(&mut self.interval, pos),
            }
            self.cursor_pos -= 1;
        }
    }

    /// Move cursor left within the current field.
    pub fn move_cursor_left(&mut self)
        ensures
            final(self)@ == move_left_v(old(self)@),
    {
        if self.cursor_pos > 0 {
            self.cursor_pos -= 1;
        }
    }

    /// Move cursor right within the current field.
    pub fn move_cursor_right(&mut self)
        requires
            focus_ok(old(self)@),
        ensures
            final(self)@ == move_right_v(old(self)@),
    {
        let len = self.current_len();
        if self.cursor_pos < len {
            self.cursor_pos += 1;
        }
    }

    /// Validate the form, populating self.errors. Returns true if valid.
    /// The directory and command checks read the file system and `PATH`;
    /// the statement holds for what they answered.
    pub fn validate(&mut self) -> (ok: bool)
        ensures
            exists|dir: DirStatus, found: bool|
                final(self)@ == #[trigger] validate_v(old(self)@, dir, found),
            ok == (final(self).errors.len() == 0),
    {
        let ghost v0 = self@;
        let mut errors: Vec<String> = Vec::new();
        if is_blank(self.name.as_str()) {
            errors.push(to_owned_string("Name cannot be empty"));
        }
        let ghost e1 = strings_view(errors@);
        let env_json = env_string_to_json(self.env_vars.as_str());
        let health = check_app_health(
            self.working_dir.as_str(),
            self.command.as_str(),
            env_json.as_str(),
        );
        assert(exists|dir: DirStatus, found: bool|
            errors_view(health.errors@) == #[trigger] health_errors(
                v0.working_dir,
                dir,
                v0.command,
                found,
                env_json@,
            ));
        let mut k: usize = 0;
        let ghost hv = errors_view(health.errors@);
        while k < health.errors.len()
            invariant
                k <= health.errors.len(),
                hv == errors_view(health.errors@),
                strings_view(errors@) == e1 + hv.take(k as int).map_values(
                    |e: (int, Seq<char>)| health_message(e),
                ),
            decreases health.errors.len() - k,
        {
            let m = health.errors[k].message();
            let ghost before = strings_view(errors@);
            errors.push(m);
            assert(hv[k as int] == crate::process::health::health_error_view(health.errors@[k as int]));
            assert(hv.take(k + 1).map_values(|e: (int, Seq<char>)| health_message(e)) =~= hv.take(
                k as int,
            ).map_values(|e: (int, Seq<char>)| health_message(e)).push(health_message(hv[k as int])));
            assert(strings_view(errors@) =~= before.push(m@));
            k = k + 1;
        }
        assert(hv.take(health.errors.len() as int) =~= hv);
        let ghost e2 = strings_view(errors@);
        push_positive_errors(
            &mut errors,
            self.max_runtime.as_str(),
            "Max runtime must be a positive number",
            "Max runtime must be a valid number",
        );
        push_positive_errors(
            &mut errors,
            self.interval.as_str(),
            "Interval must be a positive number (seconds)",
            "Interval must be a valid number (seconds)",
        );
        self.errors = errors;
        proof {
            let (dir, found) = choose|dir: DirStatus, found: bool|
                errors_view(health.errors@) == #[trigger] health_errors(
                    v0.working_dir,
                    dir,
                    v0.command,
                    found,
                    env_json@,
                );
            assert(strings_view(self.errors@) =~= validation_errors(v0, dir, found));
            assert(self@ == validate_v(v0, dir, found));
        }
        self.errors.len() == 0
    }

    /// Convert form state into a NewApp struct ready for DB insertion.
    pub fn to_new_app(&self) -> (a: NewApp)
        ensures
            new_app_view(a) == to_new_app_v(self@),
    {
        let env_json = env_string_to_json(self.env_vars.as_str());
        NewApp {
            name: trim_string(self.name.as_str()),
            working_dir: trim_string(self.working_dir.as_str()),
            command: trim_string(self.command.as_str()),
            env_vars: env_json,
            auto_start: self.auto_start,
            max_runtime_secs: positive_field(self.max_runtime.as_str()),
            interval_seconds: positive_field(self.interval.as_str()),
            template_vars: clone_vars(&self.template_vars),
        }
    }

    /// Detect template variables from command, working_dir, and env_vars
    /// fields. Syncs the detected variables with existing template_vars
    /// metadata.
    pub fn detect_template_vars(&mut self)
        ensures
            final(self)@ == detect_v(old(self)@),
    {
        let env_json = env_string_to_json(self.env_vars.as_str());
        let mut fields: Vec<&str> = Vec::new();
        fields.push(self.command.as_str());
        fields.push(self.working_dir.as_str());
        fields.push(env_json.as_str());
        let detected = extract_variables_from_fields(fields.as_slice());
        proof {
            let fv = fields@.map_values(|f: &str| f@);
            assert(fv =~= seq![self.command@, self.working_dir@, env_json@]);
        }
        let synced = sync_template_vars(self.template_vars.as_slice(), detected.as_slice());
        proof {
            assert(vars_view(synced@) =~= synced_vars(
                vars_view(self.template_vars@),
                detected_names(self@),
            ));
        }
        self.template_vars = synced;
    }
}

fn push_positive_errors(errors: &mut Vec<String>, s: &str, not_positive: &str, not_number: &str)
    ensures
        strings_view(final(errors)@) == strings_view(old(errors)@) + positive_errors(
            s@,
            not_positive@,
            not_number@,
        ),
{
    let t = trim_string(s);
    if t.as_str().unicode_len() > 0 {
        match parse_i64(t.as_str()) {
            Some(v) => {
                if v <= 0 {
                    errors.push(to_owned_string(not_positive));
                }
            },
            None => {
                errors.push(to_owned_string(not_number));
            },
        }
    }
    assert(strings_view(errors@) =~= strings_view(old(errors)@) + positive_errors(
        s@,
        not_positive@,
        not_number@,
    ));
}

fn positive_field(s: &str) -> (r: Option<i64>)
    ensures
        r == positive_value(s@),
{
    let t = trim_string(s);
    match parse_i64(t.as_str()) {
        Some(v) => if v > 0 {
            Some(v)
        } else {
            None
        },
        None => None,
    }
}

/// Handle a key event while the form is focused. Saving validates, and
/// validation reads the file system and `PATH`; the statement holds for
/// what they answered.
pub fn handle_form_key(key: KeyInput, form: &mut FormState) -> (a: FormAction)
    requires
        form_key_ok(old(form)@, key),
    ensures
        exists|dir: DirStatus, found: bool|
            (final(form)@, action_view(a)) == #[trigger] form_key_spec(old(form)@, key, dir, found),
{
    let ghost v0 = form@;
    let ghost mut obs: (DirStatus, bool) = (DirStatus::Directory, true);
    let a = if key.ctrl && key.code == KeyCode::Char('c') {
        FormAction::Cancel
    } else if key.ctrl && key.code == KeyCode::Char('b') && form.fields[form.current_field]
        == FormField::WorkingDir {
        FormAction::OpenFileBrowser
    } else {
        match key.code {
            KeyCode::Esc => FormAction::Cancel,
            KeyCode::Tab => {
                let current = form.fields[form.current_field];
                if current == FormField::Command || current == FormField::WorkingDir || current
                    == FormField::EnvVars {
                    form.detect_template_vars();
                }
                assert(form.current_field < form.fields.len());
                if key.shift {
                    form.prev_field();
                } else {
                    form.next_field();
                }
                FormAction::Continue
            },
            KeyCode::BackTab => {
                let current = form.fields[form.current_field];
                if current == FormField::Command || current == FormField::WorkingDir || current
                    == FormField::EnvVars {
                    form.detect_template_vars();
                }
                assert(form.current_field < form.fields.len());
                form.prev_field();
                FormAction::Continue
            },
            KeyCode::Enter => {
                let ok = form.validate();
                proof {
                    obs = choose|dir: DirStatus, found: bool|
                        form@ == #[trigger] validate_v(v0, dir, found);
                }
                if ok {
                    FormAction::Save(form.to_new_app())
                } else {
                    FormAction::Continue
                }
            },
            KeyCode::Char(c) => {
                if c == ' ' && form.fields[form.current_field] == FormField::AutoStart {
                    form.toggle_auto_start();
                } else {
                    form.insert_char(c);
                }
                FormAction::Continue
            },
            KeyCode::Backspace => {
                form.delete_char();
                FormAction::Continue
            },
            KeyCode::Left => {
                form.move_cursor_left();
                FormAction::Continue
            },
            KeyCode::Right => {
                form.move_cursor_right();
                FormAction::Continue
            },
            _ => FormAction::Continue,
        }
    };
    assert((form@, action_view(a)) == form_key_spec(v0, key, obs.0, obs.1));
    a
}


/// A law of field focus: Tab then Shift+Tab (and Shift+Tab then Tab) comes
/// back to the same field, with the cursor at the end of its value.
pub proof fn lemma_next_prev_field(v: FormView)
    requires
        focus_ok(v),
    ensures
        prev_field_v(next_field_v(v)) == (FormView {
            cursor_pos: byte_len(value_of(v, v.fields[v.current_field])) as int,
            ..v
        }),
        next_field_v(prev_field_v(v)) == (FormView {
            cursor_pos: byte_len(value_of(v, v.fields[v.current_field])) as int,
            ..v
        }),
{
    crate::tui::input::lemma_wrap_next(v.current_field, v.fields.len() as int);
}


/// Whether `handle_form_key` can take `key`: every edit it would make
/// starts on a character boundary of the focused value (`String::insert`
/// and `String::remove` panic elsewhere).
pub fn form_key_allowed(form: &FormState, key: KeyInput) -> (b: bool)
    ensures
        b == form_key_ok(form@, key),
{
    if key.ctrl && key.code == KeyCode::Char('c') {
        return true;
    }
    let focus = form.current_field < form.fields.len();
    if key.ctrl && key.code == KeyCode::Char('b') && !focus {
        return false;
    }
    if key.ctrl && key.code == KeyCode::Char('b') && form.fields[form.current_field]
        == FormField::WorkingDir {
        return true;
    }
    match key.code {
        KeyCode::Tab | KeyCode::BackTab | KeyCode::Right => focus,
        KeyCode::Char(c) => {
            if !focus {
                return false;
            }
            let f = form.fields[form.current_field];
            if c == ' ' && f == FormField::AutoStart {
                return true;
            }
            if f == FormField::AutoStart {
                return true;
            }
            let value = form.current_field_value();
            let len = crate::text::str_byte_len(value);
            let pos = if form.cursor_pos < len {
                form.cursor_pos
            } else {
                len
            };
            crate::text::str_is_char_boundary(value, pos)
        },
        KeyCode::Backspace => {
            if !focus {
                return false;
            }
            let f = form.fields[form.current_field];
            if f == FormField::AutoStart || form.cursor_pos == 0 {
                return true;
            }
            let value = form.current_field_value();
            let len = crate::text::str_byte_len(value);
            form.cursor_pos - 1 < len && crate::text::str_is_char_boundary(
                value,
                form.cursor_pos - 1,
            )
        },
        _ => true,
    }
}


/// A law of editing: typing a character and then Backspace leaves the
/// focused field's text as it was, with the cursor where the character went
/// in; the Backspace is one the form can take.
pub proof fn lemma_type_then_backspace(v: FormView, c: char)
    requires
        focus_ok(v),
        focused(v) != FormField::AutoStart,
        insert_ok(v),
    ensures
        delete_ok(insert_char_v(v, c)),
        delete_char_v(insert_char_v(v, c)) == (FormView { cursor_pos: insert_pos(v), ..v }),
{
    let f = focused(v);
    let s = value_of(v, f);
    let pos = insert_pos(v);
    crate::text::lemma_remove_inserted(s, pos, c);
    let x = insert_at_byte(s, pos, c);
    let w = insert_char_v(v, c);
    assert(focused(w) == f);
    assert(value_of(w, f) == x);
    assert(w.cursor_pos == pos + 1);
    assert(remove_at_byte(value_of(w, f), w.cursor_pos - 1) == s);
    assert(!(focused(w) == FormField::AutoStart || w.cursor_pos <= 0));
    let d = delete_char_v(w);
    assert(d == (FormView { cursor_pos: pos, ..with_value(w, f, s) }));
    match f {
        FormField::Name => assert(d == (FormView { cursor_pos: pos, ..v })),
        FormField::WorkingDir => assert(d == (FormView { cursor_pos: pos, ..v })),
        FormField::Command => assert(d == (FormView { cursor_pos: pos, ..v })),
        FormField::EnvVars => assert(d == (FormView { cursor_pos: pos, ..v })),
        FormField::MaxRuntime => assert(d == (FormView { cursor_pos: pos, ..v })),
        FormField::Interval => assert(d == (FormView { cursor_pos: pos, ..v })),
        FormField::AutoStart => {},
    }
}

} // verus!
