//! New/edit mask form with a dynamic key-value header table.

use vstd::prelude::*;

use crate::db::models::{ApiMask, NewMask};
use crate::json::{json_read, json_write_object, pairs_view, read_json, write_json_object};
use crate::text::{
    byte_len, char_boundary, decimal, has_prefix, insert_at_byte, is_blank, parse_u16,
    parse_u16_spec, push_decimal, push_str, remove_at_byte, starts_with, string_byte_len,
    string_insert, string_remove, to_owned_string, trim, trim_string, u64_to_string,
};
use crate::tui::form::{min_int, strings_view};
use crate::tui::input::{KeyCode, KeyInput};

verus! {

/// Which field is currently focused in the mask form.
#[derive(Debug, Clone, Copy, PartialEq, Eq, Structural)]
pub enum MaskFormField {
    Name,
    TargetUrl,
    Port,
    AutoStart,
    Headers,
}

/// Sub-mode when inside the headers table.
#[derive(Debug, Clone, Copy, PartialEq, Eq, Structural)]
pub enum HeaderTableMode {
    /// Navigating rows/columns with vim keys.
    Navigate,
    /// Editing a cell value.
    Edit,
}

/// Which column is selected in the header table.
#[derive(Debug, Clone, Copy, PartialEq, Eq, Structural)]
pub enum HeaderColumn {
    Key,
    Value,
}

/// Actions returned from mask form key handling.
#[derive(Debug, Clone, PartialEq)]
pub enum MaskFormAction {
    Continue,
    Save(NewMask),
    Cancel,
}

/// A single header row (key + value).
#[derive(Debug, Clone, PartialEq)]
pub struct HeaderRow {
    pub key: String,
    pub value: String,
}

/// Mutable form state for creating or editing a mask.
#[derive(Debug, Clone)]
pub struct MaskFormState {
    pub fields: Vec<MaskFormField>,
    pub current_field: usize,
    pub name: String,
    pub target_url: String,
    pub port: String,
    pub auto_start: bool,
    pub headers: Vec<HeaderRow>,
    pub header_selected_row: usize,
    pub header_column: HeaderColumn,
    pub header_mode: HeaderTableMode,
    pub errors: Vec<String>,
    pub editing: bool,
    pub edit_id: Option<i64>,
    pub cursor_pos: usize,
}

/// The mask form as plain values.
pub ghost struct MaskFormView {
    pub fields: Seq<MaskFormField>,
    pub current_field: int,
    pub name: Seq<char>,
    pub target_url: Seq<char>,
    pub port: Seq<char>,
    pub auto_start: bool,
    pub headers: Seq<(Seq<char>, Seq<char>)>,
    pub header_selected_row: int,
    pub header_column: HeaderColumn,
    pub header_mode: HeaderTableMode,
    pub errors: Seq<Seq<char>>,
    pub editing: bool,
    pub edit_id: Option<i64>,
    pub cursor_pos: int,
}

pub open spec fn rows_view(rows: Seq<HeaderRow>) -> Seq<(Seq<char>, Seq<char>)> {
    rows.map_values(|r: HeaderRow| (r.key@, r.value@))
}

impl View for MaskFormState {
    type V = MaskFormView;

    open spec fn view(&self) -> MaskFormView {
        MaskFormView {
            fields: self.fields@,
            current_field: self.current_field as int,
            name: self.name@,
            target_url: self.target_url@,
            port: self.port@,
            auto_start: self.auto_start,
            headers: rows_view(self.headers@),
            header_selected_row: self.header_selected_row as int,
            header_column: self.header_column,
            header_mode: self.header_mode,
            errors: strings_view(self.errors@),
            editing: self.editing,
            edit_id: self.edit_id,
            cursor_pos: self.cursor_pos as int,
        }
    }
}

/// A new mask record as plain values.
pub ghost struct NewMaskView {
    pub name: Seq<char>,
    pub target_url: Seq<char>,
    pub listen_port: u16,
    pub headers: Seq<char>,
    pub auto_start: bool,
}

pub open spec fn new_mask_view(m: NewMask) -> NewMaskView {
    NewMaskView {
        name: m.name@,
        target_url: m.target_url@,
        listen_port: m.listen_port,
        headers: m.headers@,
        auto_start: m.auto_start,
    }
}

/// A mask form action as plain values.
pub ghost enum MaskActionView {
    Continue,
    Save(NewMaskView),
    Cancel,
}

pub open spec fn mask_action_view(a: MaskFormAction) -> MaskActionView {
    match a {
        MaskFormAction::Continue => MaskActionView::Continue,
        MaskFormAction::Save(m) => MaskActionView::Save(new_mask_view(m)),
        MaskFormAction::Cancel => MaskActionView::Cancel,
    }
}

pub open spec fn all_mask_fields() -> Seq<MaskFormField> {
    seq![
        MaskFormField::Name,
        MaskFormField::TargetUrl,
        MaskFormField::Port,
        MaskFormField::AutoStart,
        MaskFormField::Headers,
    ]
}

fn mask_field_list() -> (v: Vec<MaskFormField>)
    ensures
        v@ == all_mask_fields(),
{
    let mut v: Vec<MaskFormField> = Vec::new();
    v.push(MaskFormField::Name);
    v.push(MaskFormField::TargetUrl);
    v.push(MaskFormField::Port);
    v.push(MaskFormField::AutoStart);
    v.push(MaskFormField::Headers);
    assert(v@ =~= all_mask_fields());
    v
}

// ---------------------------------------------------------------------------
// Header JSON.
// ---------------------------------------------------------------------------

/// The header rows stored as a JSON object text: none for blank text, `{}`
/// or anything that is not an object.
pub open spec fn header_rows_of(json: Seq<char>) -> Seq<(Seq<char>, Seq<char>)> {
    let t = trim(json);
    if t.len() == 0 || t == "{}"@ {
        Seq::empty()
    } else {
        match json_read(t) {
            Ok(Some(entries)) => entries,
            _ => Seq::empty(),
        }
    }
}

/// The pairs that header rows store: rows with a non-blank key, the key
/// trimmed, the value as typed.
pub open spec fn header_pairs(rows: Seq<(Seq<char>, Seq<char>)>) -> Seq<(Seq<char>, Seq<char>)>
    decreases rows.len(),
{
    if rows.len() == 0 {
        Seq::empty()
    } else {
        let prev = header_pairs(rows.drop_last());
        if trim(rows.last().0).len() == 0 {
            prev
        } else {
            prev.push((trim(rows.last().0), rows.last().1))
        }
    }
}

/// Parse headers JSON string into header rows.
pub fn parse_headers_json(json_str: &str) -> (rows: Vec<HeaderRow>)
    ensures
        rows_view(rows@) == header_rows_of(json_str@),
{
    let trimmed = trim_string(json_str);
    if trimmed.as_str().unicode_len() == 0 || crate::text::str_eq(trimmed.as_str(), "{}") {
        let v: Vec<HeaderRow> = Vec::new();
        assert(rows_view(v@) =~= Seq::<(Seq<char>, Seq<char>)>::empty());
        return v;
    }
    match read_json(trimmed.as_str()) {
        Ok(Some(entries)) => {
            let mut rows: Vec<HeaderRow> = Vec::new();
            let mut i: usize = 0;
            while i < entries.len()
                invariant
                    i <= entries.len(),
                    rows.len() == i,
                    forall|j: int|
                        0 <= j < i ==> #[trigger] rows@[j].key@ == entries@[j].0@ && rows@[j].value@
                            == entries@[j].1@,
                decreases entries.len() - i,
            {
                rows.push(HeaderRow { key: entries[i].0.clone(), value: entries[i].1.clone() });
                i = i + 1;
            }
            assert(rows_view(rows@) =~= pairs_view(entries@));
            rows
        },
        _ => {
            let v: Vec<HeaderRow> = Vec::new();
            assert(rows_view(v@) =~= Seq::<(Seq<char>, Seq<char>)>::empty());
            v
        },
    }
}

/// Convert header rows to a JSON object string.
pub fn headers_to_json(headers: &[HeaderRow]) -> (s: String)
    ensures
        s@ == json_write_object(header_pairs(rows_view(headers@))),
{
    let ghost rv = rows_view(headers@);
    let mut pairs: Vec<(String, String)> = Vec::new();
    let mut i: usize = 0;
    assert(rv.take(0) =~= Seq::<(Seq<char>, Seq<char>)>::empty());
    while i < headers.len()
        invariant
            i <= headers.len(),
            rv == rows_view(headers@),
            pairs_view(pairs@) == header_pairs(rv.take(i as int)),
        decreases headers.len() - i,
    {
        assert(rv.take(i + 1).drop_last() =~= rv.take(i as int));
        assert(rv.take(i + 1).last() == (headers@[i as int].key@, headers@[i as int].value@));
        let key = trim_string(headers[i].key.as_str());
        if key.as_str().unicode_len() > 0 {
            pairs.push((key, headers[i].value.clone()));
            assert(pairs_view(pairs@) =~= header_pairs(rv.take(i + 1)));
        }
        i = i + 1;
    }
    assert(rv.take(headers.len() as int) =~= rv);
    match write_json_object(&pairs) {
        Some(s) => s,
        None => to_owned_string("{}"),
    }
}

// ---------------------------------------------------------------------------
// The mask form as a state machine over `MaskFormView`.
// ---------------------------------------------------------------------------

pub open spec fn mfocused(v: MaskFormView) -> MaskFormField {
    v.fields[v.current_field]
}

pub open spec fn mfocus_ok(v: MaskFormView) -> bool {
    0 <= v.current_field < v.fields.len()
}

pub open spec fn is_text_field(f: MaskFormField) -> bool {
    f == MaskFormField::Name || f == MaskFormField::TargetUrl || f == MaskFormField::Port
}

/// The text of a field (empty for the toggle and the header table).
pub open spec fn text_value(v: MaskFormView, f: MaskFormField) -> Seq<char> {
    match f {
        MaskFormField::Name => v.name,
        MaskFormField::TargetUrl => v.target_url,
        MaskFormField::Port => v.port,
        _ => Seq::empty(),
    }
}

pub open spec fn with_text(v: MaskFormView, f: MaskFormField, s: Seq<char>) -> MaskFormView {
    match f {
        MaskFormField::Name => MaskFormView { name: s, ..v },
        MaskFormField::TargetUrl => MaskFormView { target_url: s, ..v },
        MaskFormField::Port => MaskFormView { port: s, ..v },
        _ => v,
    }
}

pub open spec fn mnext_field(v: MaskFormView) -> MaskFormView {
    let cf = (v.current_field + 1) % (v.fields.len() as int);
    MaskFormView { current_field: cf, cursor_pos: byte_len(text_value(v, v.fields[cf])) as int, ..v }
}

pub open spec fn mprev_field(v: MaskFormView) -> MaskFormView {
    let cf = if v.current_field == 0 {
        v.fields.len() - 1
    } else {
        v.current_field - 1
    };
    MaskFormView { current_field: cf, cursor_pos: byte_len(text_value(v, v.fields[cf])) as int, ..v }
}

pub open spec fn minsert_pos(v: MaskFormView) -> int {
    min_int(v.cursor_pos, byte_len(text_value(v, mfocused(v))) as int)
}

pub open spec fn minsert_ok(v: MaskFormView) -> bool {
    is_text_field(mfocused(v)) ==> char_boundary(text_value(v, mfocused(v)), minsert_pos(v))
}

pub open spec fn minsert_char(v: MaskFormView, c: char) -> MaskFormView {
    if is_text_field(mfocused(v)) {
        let pos = minsert_pos(v);
        MaskFormView {
            cursor_pos: pos + 1,
            ..with_text(v, mfocused(v), insert_at_byte(text_value(v, mfocused(v)), pos, c))
        }
    } else {
        v
    }
}

pub open spec fn mdelete_ok(v: MaskFormView) -> bool {
    v.cursor_pos > 0 && is_text_field(mfocused(v)) ==> v.cursor_pos - 1 < byte_len(
        text_value(v, mfocused(v)),
    ) && char_boundary(text_value(v, mfocused(v)), v.cursor_pos - 1)
}

pub open spec fn mdelete_char(v: MaskFormView) -> MaskFormView {
    if v.cursor_pos > 0 && is_text_field(mfocused(v)) {
        MaskFormView {
            cursor_pos: v.cursor_pos - 1,
            ..with_text(v, mfocused(v), remove_at_byte(text_value(v, mfocused(v)), v.cursor_pos - 1))
        }
    } else {
        v
    }
}

pub open spec fn mmove_left(v: MaskFormView) -> MaskFormView {
    if v.cursor_pos > 0 {
        MaskFormView { cursor_pos: v.cursor_pos - 1, ..v }
    } else {
        v
    }
}

pub open spec fn mmove_right(v: MaskFormView) -> MaskFormView {
    if v.cursor_pos < byte_len(text_value(v, mfocused(v))) {
        MaskFormView { cursor_pos: v.cursor_pos + 1, ..v }
    } else {
        v
    }
}

/// The text of a header cell.
pub open spec fn cell(v: MaskFormView, row: int, col: HeaderColumn) -> Seq<char> {
    match col {
        HeaderColumn::Key => v.headers[row].0,
        HeaderColumn::Value => v.headers[row].1,
    }
}

pub open spec fn with_cell(v: MaskFormView, row: int, col: HeaderColumn, s: Seq<char>) -> MaskFormView {
    let r = v.headers[row];
    let nr = match col {
        HeaderColumn::Key => (s, r.1),
        HeaderColumn::Value => (r.0, s),
    };
    MaskFormView { headers: v.headers.update(row, nr), ..v }
}

/// Whether the selected header row exists.
pub open spec fn row_ok(v: MaskFormView) -> bool {
    0 <= v.header_selected_row < v.headers.len()
}

pub open spec fn sel_cell(v: MaskFormView) -> Seq<char> {
    cell(v, v.header_selected_row, v.header_column)
}

pub open spec fn header_insert_ok(v: MaskFormView) -> bool {
    row_ok(v) ==> char_boundary(sel_cell(v), min_int(v.cursor_pos, byte_len(sel_cell(v)) as int))
}

pub open spec fn header_insert_v(v: MaskFormView, c: char) -> MaskFormView {
    if row_ok(v) {
        let pos = min_int(v.cursor_pos, byte_len(sel_cell(v)) as int);
        MaskFormView {
            cursor_pos: pos + 1,
            ..with_cell(
                v,
                v.header_selected_row,
                v.header_column,
                insert_at_byte(sel_cell(v), pos, c),
            )
        }
    } else {
        v
    }
}

pub open spec fn header_delete_ok(v: MaskFormView) -> bool {
    v.cursor_pos > 0 && row_ok(v) && v.cursor_pos <= byte_len(sel_cell(v)) ==> char_boundary(
        sel_cell(v),
        v.cursor_pos - 1,
    )
}

pub open spec fn header_delete_v(v: MaskFormView) -> MaskFormView {
    if v.cursor_pos > 0 && row_ok(v) && v.cursor_pos <= byte_len(sel_cell(v)) {
        MaskFormView {
            cursor_pos: v.cursor_pos - 1,
            ..with_cell(
                v,
                v.header_selected_row,
                v.header_column,
                remove_at_byte(sel_cell(v), v.cursor_pos - 1),
            )
        }
    } else {
        v
    }
}

pub open spec fn add_row_v(v: MaskFormView) -> MaskFormView {
    MaskFormView {
        headers: v.headers.push((Seq::empty(), Seq::empty())),
        header_selected_row: v.headers.len() as int,
        header_column: HeaderColumn::Key,
        header_mode: HeaderTableMode::Edit,
        cursor_pos: 0,
        ..v
    }
}

pub open spec fn delete_row_ok(v: MaskFormView) -> bool {
    v.headers.len() > 0 ==> row_ok(v)
}

pub open spec fn delete_row_v(v: MaskFormView) -> MaskFormView {
    if v.headers.len() == 0 {
        v
    } else {
        let rows = v.headers.remove(v.header_selected_row);
        let sel = if v.header_selected_row >= rows.len() && rows.len() > 0 {
            rows.len() - 1
        } else {
            v.header_selected_row
        };
        MaskFormView { headers: rows, header_selected_row: sel, ..v }
    }
}

/// The validation messages of header rows from row number `i + 1` on.
pub open spec fn header_errors(rows: Seq<(Seq<char>, Seq<char>)>) -> Seq<Seq<char>>
    decreases rows.len(),
{
    if rows.len() == 0 {
        Seq::empty()
    } else {
        let prev = header_errors(rows.drop_last());
        if trim(rows.last().0).len() == 0 && trim(rows.last().1).len() > 0 {
            prev.push("Header row "@ + decimal(rows.len()) + ": key cannot be empty"@)
        } else {
            prev
        }
    }
}

/// The validation messages of a mask form.
pub open spec fn mask_errors(v: MaskFormView) -> Seq<Seq<char>> {
    let name_errs: Seq<Seq<char>> = if trim(v.name).len() == 0 {
        seq!["Name cannot be empty"@]
    } else {
        Seq::empty()
    };
    let url_errs: Seq<Seq<char>> = if trim(v.target_url).len() == 0 {
        seq!["Target URL cannot be empty"@]
    } else if !starts_with(v.target_url, "http://"@) && !starts_with(v.target_url, "https://"@) {
        seq!["Target URL must start with http:// or https://"@]
    } else {
        Seq::empty()
    };
    let port_errs: Seq<Seq<char>> = if trim(v.port).len() == 0 {
        seq!["Port cannot be empty"@]
    } else {
        match parse_u16_spec(trim(v.port)) {
            Some(p) => if p == 0 {
                seq!["Port must be between 1 and 65535"@]
            } else {
                Seq::empty()
            },
            None => seq!["Port must be a number (1-65535)"@],
        }
    };
    name_errs + url_errs + port_errs + header_errors(v.headers)
}

pub open spec fn mvalidate(v: MaskFormView) -> MaskFormView {
    MaskFormView { errors: mask_errors(v), ..v }
}

pub open spec fn to_new_mask_v(v: MaskFormView) -> NewMaskView {
    NewMaskView {
        name: trim(v.name),
        target_url: trim(v.target_url),
        listen_port: match parse_u16_spec(trim(v.port)) {
            Some(p) => p,
            None => 8080,
        },
        headers: json_write_object(header_pairs(v.headers)),
        auto_start: v.auto_start,
    }
}

/// Saving: validate, and produce the new mask when there are no errors.
pub open spec fn save_step(v: MaskFormView) -> (MaskFormView, MaskActionView) {
    let w = mvalidate(v);
    if w.errors.len() == 0 {
        (w, MaskActionView::Save(to_new_mask_v(w)))
    } else {
        (w, MaskActionView::Continue)
    }
}

/// The length of the selected cell in the other column, for switching
/// columns while editing.
pub open spec fn switch_column_v(v: MaskFormView) -> MaskFormView {
    let col = match v.header_column {
        HeaderColumn::Key => HeaderColumn::Value,
        HeaderColumn::Value => HeaderColumn::Key,
    };
    if row_ok(v) {
        MaskFormView {
            header_column: col,
            cursor_pos: byte_len(cell(v, v.header_selected_row, col)) as int,
            ..v
        }
    } else {
        MaskFormView { header_column: col, ..v }
    }
}

/// Keys in the header table's navigate mode.
pub open spec fn navigate_key_spec(v: MaskFormView, key: KeyInput) -> (MaskFormView, MaskActionView) {
    match key.code {
        KeyCode::Char('j') | KeyCode::Down => if v.headers.len() > 0 && v.header_selected_row
            < v.headers.len() - 1 {
            (
                MaskFormView { header_selected_row: v.header_selected_row + 1, ..v },
                MaskActionView::Continue,
            )
        } else {
            (v, MaskActionView::Continue)
        },
        KeyCode::Char('k') | KeyCode::Up => if v.header_selected_row > 0 {
            (
                MaskFormView { header_selected_row: v.header_selected_row - 1, ..v },
                MaskActionView::Continue,
            )
        } else {
            (v, MaskActionView::Continue)
        },
        KeyCode::Char('h') | KeyCode::Left => (
            MaskFormView { header_column: HeaderColumn::Key, ..v },
            MaskActionView::Continue,
        ),
        KeyCode::Char('l') | KeyCode::Right => (
            MaskFormView { header_column: HeaderColumn::Value, ..v },
            MaskActionView::Continue,
        ),
        KeyCode::Char('a') => (add_row_v(v), MaskActionView::Continue),
        KeyCode::Char('d') => (delete_row_v(v), MaskActionView::Continue),
        KeyCode::Enter => if v.headers.len() > 0 {
            (
                MaskFormView {
                    header_mode: HeaderTableMode::Edit,
                    cursor_pos: byte_len(sel_cell(v)) as int,
                    ..v
                },
                MaskActionView::Continue,
            )
        } else {
            (v, MaskActionView::Continue)
        },
        KeyCode::Esc => (mprev_field(v), MaskActionView::Continue),
        KeyCode::Tab => (mnext_field(v), MaskActionView::Continue),
        KeyCode::BackTab => (mprev_field(v), MaskActionView::Continue),
        KeyCode::Char('S') => save_step(v),
        _ => (v, MaskActionView::Continue),
    }
}

/// Keys in the header table's edit mode.
pub open spec fn edit_key_spec(v: MaskFormView, key: KeyInput) -> (MaskFormView, MaskActionView) {
    match key.code {
        KeyCode::Esc | KeyCode::Enter => (
            MaskFormView { header_mode: HeaderTableMode::Navigate, ..v },
            MaskActionView::Continue,
        ),
        KeyCode::Tab => (switch_column_v(v), MaskActionView::Continue),
        KeyCode::Backspace => (header_delete_v(v), MaskActionView::Continue),
        KeyCode::Left => (mmove_left(v), MaskActionView::Continue),
        KeyCode::Right => if row_ok(v) && v.cursor_pos < byte_len(sel_cell(v)) {
            (MaskFormView { cursor_pos: v.cursor_pos + 1, ..v }, MaskActionView::Continue)
        } else {
            (v, MaskActionView::Continue)
        },
        KeyCode::Char(c) => (header_insert_v(v, c), MaskActionView::Continue),
        _ => (v, MaskActionView::Continue),
    }
}

/// The mask form after a key and the action it produces.
pub open spec fn mask_key_spec(v: MaskFormView, key: KeyInput) -> (MaskFormView, MaskActionView) {
    if key.ctrl && key.code == KeyCode::Char('c') {
        (v, MaskActionView::Cancel)
    } else if mfocused(v) == MaskFormField::Headers {
        match v.header_mode {
            HeaderTableMode::Navigate => navigate_key_spec(v, key),
            HeaderTableMode::Edit => edit_key_spec(v, key),
        }
    } else {
        match key.code {
            KeyCode::Esc => (v, MaskActionView::Cancel),
            KeyCode::Tab => if key.shift {
                (mprev_field(v), MaskActionView::Continue)
            } else {
                (mnext_field(v), MaskActionView::Continue)
            },
            KeyCode::BackTab => (mprev_field(v), MaskActionView::Continue),
            KeyCode::Enter => save_step(v),
            KeyCode::Char(c) => if mfocused(v) == MaskFormField::AutoStart {
                if c == ' ' {
                    (MaskFormView { auto_start: !v.auto_start, ..v }, MaskActionView::Continue)
                } else {
                    (v, MaskActionView::Continue)
                }
            } else {
                (minsert_char(v, c), MaskActionView::Continue)
            },
            KeyCode::Backspace => (mdelete_char(v), MaskActionView::Continue),
            KeyCode::Left => (mmove_left(v), MaskActionView::Continue),
            KeyCode::Right => (mmove_right(v), MaskActionView::Continue),
            _ => (v, MaskActionView::Continue),
        }
    }
}

/// Whether a key can be handled without panicking.
pub open spec fn mask_key_ok(v: MaskFormView, key: KeyInput) -> bool {
    if key.ctrl && key.code == KeyCode::Char('c') {
        true
    } else if !mfocus_ok(v) {
        false
    } else if mfocused(v) == MaskFormField::Headers {
        match v.header_mode {
            HeaderTableMode::Navigate => match key.code {
                KeyCode::Char('d') => delete_row_ok(v),
                KeyCode::Enter => v.headers.len() > 0 ==> row_ok(v),
                _ => true,
            },
            HeaderTableMode::Edit => match key.code {
                KeyCode::Backspace => header_delete_ok(v),
                KeyCode::Char(c) => header_insert_ok(v),
                _ => true,
            },
        }
    } else {
        match key.code {
            KeyCode::Char(c) => mfocused(v) != MaskFormField::AutoStart ==> minsert_ok(v),
            KeyCode::Backspace => mdelete_ok(v),
            _ => true,
        }
    }
}

impl MaskFormState {
    /// The view of an empty mask form.
    pub open spec fn new_view() -> MaskFormView {
        MaskFormView {
            fields: all_mask_fields(),
            current_field: 0,
            name: Seq::empty(),
            target_url: Seq::empty(),
            port: Seq::empty(),
            auto_start: false,
            headers: Seq::empty(),
            header_selected_row: 0,
            header_column: HeaderColumn::Key,
            header_mode: HeaderTableMode::Navigate,
            errors: Seq::empty(),
            editing: false,
            edit_id: None,
            cursor_pos: 0,
        }
    }

    /// Create an empty form for a new mask.
    pub fn new() -> (f: Self)
        ensures
            f@ == Self::new_view(),
    {
        let f = Self {
            fields: mask_field_list(),
            current_field: 0,
            name: String::new(),
            target_url: String::new(),
            port: String::new(),
            auto_start: false,
            headers: Vec::new(),
            header_selected_row: 0,
            header_column: HeaderColumn::Key,
            header_mode: HeaderTableMode::Navigate,
            errors: Vec::new(),
            editing: false,
            edit_id: None,
            cursor_pos: 0,
        };
        assert(strings_view(f.errors@) =~= Seq::<Seq<char>>::empty());
        assert(rows_view(f.headers@) =~= Seq::<(Seq<char>, Seq<char>)>::empty());
        f
    }

    /// `Default`: an empty mask form.
    pub fn default() -> (f: Self)
        ensures
            f@ == Self::new_view(),
    {
        Self::new()
    }

    /// Create a pre-filled form from an existing mask config.
    pub fn from_mask(mask: &ApiMask) -> (f: Self)
        ensures
            f@ == (MaskFormView {
                fields: all_mask_fields(),
                current_field: 0,
                name: mask.name@,
                target_url: mask.target_url@,
                port: decimal(mask.listen_port as nat),
                auto_start: mask.auto_start,
                headers: header_rows_of(mask.headers@),
                header_selected_row: 0,
                header_column: HeaderColumn::Key,
                header_mode: HeaderTableMode::Navigate,
                errors: Seq::empty(),
                editing: true,
                edit_id: Some(mask.id),
                cursor_pos: byte_len(mask.name@) as int,
            }),
    {
        let headers = parse_headers_json(mask.headers.as_str());
        let name_len = string_byte_len(&mask.name);
        let f = Self {
            fields: mask_field_list(),
            current_field: 0,
            name: mask.name.clone(),
            target_url: mask.target_url.clone(),
            port: u64_to_string(mask.listen_port as u64),
            auto_start: mask.auto_start,
            headers,
            header_selected_row: 0,
            header_column: HeaderColumn::Key,
            header_mode: HeaderTableMode::Navigate,
            errors: Vec::new(),
            editing: true,
            edit_id: Some(mask.id),
            cursor_pos: name_len,
        };
        assert(strings_view(f.errors@) =~= Seq::<Seq<char>>::empty());
        f
    }

    /// Get the value of the currently focused text field.
    fn current_text_value(&self) -> (s: &str)
        requires
            mfocus_ok(self@),
        ensures
            s@ == text_value(self@, mfocused(self@)),
    {
        match self.fields[self.current_field] {
            MaskFormField::Name => self.name.as_str(),
            MaskFormField::TargetUrl => self.target_url.as_str(),
            MaskFormField::Port => self.port.as_str(),
            _ => {
                proof {
                    reveal_strlit("");
                }
                ""
            },
        }
    }

    fn current_text_len(&self) -> (n: usize)
        requires
            mfocus_ok(self@),
        ensures
            n == byte_len(text_value(self@, mfocused(self@))),
            n <= isize::MAX,
    {
        proof {
            reveal_strlit("");
        }
        crate::text::str_byte_len(self.current_text_value())
    }

    /// Move to the next field.
    pub fn next_field(&mut self)
        requires
            old(self).fields.len() > 0,
            old(self).current_field < usize::MAX,
        ensures
            final(self)@ == mnext_field(old(self)@),
    {
        self.current_field = (self.current_field + 1) % self.fields.len();
        self.cursor_pos = self.current_text_len();
    }

    /// Move to the previous field.
    pub fn prev_field(&mut self)
        requires
            old(self).fields.len() > 0,
            old(self).current_field <= old(self).fields.len(),
        ensures
            final(self)@ == mprev_field(old(self)@),
    {
        if self.current_field == 0 {
            self.current_field = self.fields.len() - 1;
        } else {
            self.current_field -= 1;
        }
        self.cursor_pos = self.current_text_len();
    }

    /// Insert a character at cursor in the current text field.
    pub fn insert_char(&mut self, c: char)
        requires
            mfocus_ok(old(self)@),
            minsert_ok(old(self)@),
        ensures
            final(self)@ == minsert_char(old(self)@, c),
    {
        let cursor = self.cursor_pos;
        match self.fields[self.current_field] {
            MaskFormField::Name => {
                let len = string_byte_len(&self.name);
                let pos = if cursor < len {
                    cursor
                } else {
                    len
                };
                string_insert(&mut self.name, pos, c);
                self.cursor_pos = pos + 1;
            },
            MaskFormField::TargetUrl => {
                let len = string_byte_len(&self.target_url);
                let pos = if cursor < len {
                    cursor
                } else {
                    len
                };
                string_insert(&mut self.target_url, pos, c);
                self.cursor_pos = pos + 1;
            },
            MaskFormField::Port => {
                let len = string_byte_len(&self.port);
                let pos = if cursor < len {
                    cursor
                } else {
                    len
                };
                string_insert(&mut self.port, pos, c);
                self.cursor_pos = pos + 1;
            },
            _ => {},
        }
    }

    /// Delete character before cursor.
    pub fn delete_char(&mut self)
        requires
            mfocus_ok(old(self)@),
            mdelete_ok(old(self)@),
        ensures
            final(self)@ == mdelete_char(old(self)@),
    {
        if self.cursor_pos > 0 {
            let pos = self.cursor_pos;
            match self.fields[self.current_field] {
                MaskFormField::Name => {
                    string_remove(&mut self.name, pos - 1);
                    self.cursor_pos -= 1;
                },
                MaskFormField::TargetUrl => {
                    string_remove(&mut self.target_url, pos - 1);
                    self.cursor_pos -= 1;
                },
                MaskFormField::Port => {
                    string_remove(&mut self.port, pos - 1);
                    self.cursor_pos -= 1;
                },
                _ => {},
            }
        }
    }

    /// Move cursor left.
    pub fn move_cursor_left(&mut self)
        ensures
            final(self)@ == mmove_left(old(self)@),
    {
        if self.cursor_pos > 0 {
            self.cursor_pos -= 1;
        }
    }

    /// Move cursor right.
    pub fn move_cursor_right(&mut self)
        requires
            mfocus_ok(old(self)@),
        ensures
            final(self)@ == mmove_right(old(self)@),
    {
        let len = self.current_text_len();
        if self.cursor_pos < len {
            self.cursor_pos += 1;
        }
    }

    /// Insert char into the currently selected header cell.
    pub fn header_insert_char(&mut self, c: char)
        requires
            header_insert_ok(old(self)@),
        ensures
            final(self)@ == header_insert_v(old(self)@, c),
    {
        let r = self.header_selected_row;
        if r < self.headers.len() {
            let mut key = self.headers[r].key.clone();
            let mut value = self.headers[r].value.clone();
            let pos = match self.header_column {
                HeaderColumn::Key => {
                    let len = string_byte_len(&key);
                    let pos = if self.cursor_pos < len {
                        self.cursor_pos
                    } else {
                        len
                    };
                    string_insert(&mut key, pos, c);
                    pos
                },
                HeaderColumn::Value => {
                    let len = string_byte_len(&value);
                    let pos = if self.cursor_pos < len {
                        self.cursor_pos
                    } else {
                        len
                    };
                    string_insert(&mut value, pos, c);
                    pos
                },
            };
            self.headers.set(r, HeaderRow { key, value });
            self.cursor_pos = pos + 1;
            assert(rows_view(self.headers@) =~= header_insert_v(old(self)@, c).headers);
        }
    }

    /// Delete char from the currently selected header cell.
    pub fn header_delete_char(&mut self)
        requires
            header_delete_ok(old(self)@),
        ensures
            final(self)@ == header_delete_v(old(self)@),
    {
        let r = self.header_selected_row;
        if self.cursor_pos > 0 && r < self.headers.len() {
            let mut key = self.headers[r].key.clone();
            let mut value = self.headers[r].value.clone();
            let len = match self.header_column {
                HeaderColumn::Key => string_byte_len(&key),
                HeaderColumn::Value => string_byte_len(&value),
            };
            if self.cursor_pos <= len {
                match self.header_column {
                    HeaderColumn::Key => string_remove(&mut key, self.cursor_pos - 1),
                    HeaderColumn::Value => string_remove(&mut value, self.cursor_pos - 1),
                }
                self.headers.set(r, HeaderRow { key, value });
                self.cursor_pos -= 1;
                assert(rows_view(self.headers@) =~= header_delete_v(old(self)@).headers);
            }
        }
    }

    /// Add a new header row and focus it.
    pub fn add_header_row(&mut self)
        ensures
            final(self)@ == add_row_v(old(self)@),
    {
        self.headers.push(HeaderRow { key: String::new(), value: String::new() });
        self.header_selected_row = self.headers.len() - 1;
        self.header_column = HeaderColumn::Key;
        self.header_mode = HeaderTableMode::Edit;
        self.cursor_pos = 0;
        assert(rows_view(self.headers@) =~= add_row_v(old(self)@).headers);
    }

    /// Delete the currently selected header row.
    pub fn delete_header_row(&mut self)
        requires
            delete_row_ok(old(self)@),
        ensures
            final(self)@ == delete_row_v(old(self)@),
    {
        if self.headers.len() > 0 {
            self.headers.remove(self.header_selected_row);
            if self.header_selected_row >= self.headers.len() && self.headers.len() > 0 {
                self.header_selected_row = self.headers.len() - 1;
            }
            assert(rows_view(self.headers@) =~= delete_row_v(old(self)@).headers);
        }
    }

    /// Validate the form. Returns true if valid.
    pub fn validate(&mut self) -> (ok: bool)
        ensures
            final(self)@ == mvalidate(old(self)@),
            ok == (final(self).errors.len() == 0),
    {
        let mut errors: Vec<String> = Vec::new();
        if is_blank(self.name.as_str()) {
            errors.push(to_owned_string("Name cannot be empty"));
        }
        if is_blank(self.target_url.as_str()) {
            errors.push(to_owned_string("Target URL cannot be empty"));
        } else if !has_prefix(self.target_url.as_str(), "http://") && !has_prefix(
            self.target_url.as_str(),
            "https://",
        ) {
            errors.push(to_owned_string("Target URL must start with http:// or https://"));
        }
        let port_trimmed = trim_string(self.port.as_str());
        if port_trimmed.as_str().unicode_len() == 0 {
            errors.push(to_owned_string("Port cannot be empty"));
        } else {
            match parse_u16(port_trimmed.as_str()) {
                Some(p) => {
                    if p == 0 {
                        errors.push(to_owned_string("Port must be between 1 and 65535"));
                    }
                },
                None => {
                    errors.push(to_owned_string("Port must be a number (1-65535)"));
                },
            }
        }
        let ghost base = strings_view(errors@);
        let ghost rv = rows_view(self.headers@);
        let mut i: usize = 0;
        assert(rv.take(0) =~= Seq::<(Seq<char>, Seq<char>)>::empty());
        assert(base + header_errors(rv.take(0)) =~= base);
        while i < self.headers.len()
            invariant
                i <= self.headers.len(),
                rv == rows_view(self.headers@),
                strings_view(errors@) == base + header_errors(rv.take(i as int)),
            decreases self.headers.len() - i,
        {
            assert(rv.take(i + 1).drop_last() =~= rv.take(i as int));
            assert(rv.take(i + 1).last() == (self.headers@[i as int].key@, self.headers@[i as int].value@));
            if is_blank(self.headers[i].key.as_str()) && !is_blank(self.headers[i].value.as_str()) {
                let mut m = to_owned_string("Header row ");
                push_decimal(&mut m, (i + 1) as u64);
                push_str(&mut m, ": key cannot be empty");
                proof {
                    reveal_strlit("Header row ");
                    reveal_strlit(": key cannot be empty");
                    assert(rv.take(i + 1).len() == i + 1);
                }
                let ghost before = strings_view(errors@);
                errors.push(m);
                assert(strings_view(errors@) =~= before.push(m@));
                assert(strings_view(errors@) =~= base + header_errors(rv.take(i + 1)));
            }
            i = i + 1;
        }
        assert(rv.take(self.headers.len() as int) =~= rv);
        self.errors = errors;
        assert(strings_view(self.errors@) =~= mask_errors(old(self)@));
        self.errors.len() == 0
    }

    /// Convert form state into a NewMask struct.
    pub fn to_new_mask(&self) -> (m: NewMask)
        ensures
            new_mask_view(m) == to_new_mask_v(self@),
    {
        let headers_json = headers_to_json(self.headers.as_slice());
        let port_trimmed = trim_string(self.port.as_str());
        let port = match parse_u16(port_trimmed.as_str()) {
            Some(p) => p,
            None => 8080,
        };
        NewMask {
            name: trim_string(self.name.as_str()),
            target_url: trim_string(self.target_url.as_str()),
            listen_port: port,
            headers: headers_json,
            auto_start: self.auto_start,
        }
    }
}

/// Handle a key event while the mask form is focused.
pub fn handle_mask_form_key(key: KeyInput, form: &mut MaskFormState) -> (a: MaskFormAction)
    requires
        mask_key_ok(old(form)@, key),
    ensures
        (final(form)@, mask_action_view(a)) == mask_key_spec(old(form)@, key),
{
    if key.ctrl && key.code == KeyCode::Char('c') {
        return MaskFormAction::Cancel;
    }
    if form.fields[form.current_field] == MaskFormField::Headers {
        return handle_header_table_key(key, form);
    }
    match key.code {
        KeyCode::Esc => MaskFormAction::Cancel,
        KeyCode::Tab => {
            if key.shift {
                form.prev_field();
            } else {
                assert(form.current_field < form.fields.len());
                form.next_field();
            }
            MaskFormAction::Continue
        },
        KeyCode::BackTab => {
            form.prev_field();
            MaskFormAction::Continue
        },
        KeyCode::Enter => save(form),
        KeyCode::Char(c) => {
            if form.fields[form.current_field] == MaskFormField::AutoStart {
                if c == ' ' {
                    form.auto_start = !form.auto_start;
                }
            } else {
                form.insert_char(c);
            }
            MaskFormAction::Continue
        },
        KeyCode::Backspace => {
            form.delete_char();
            MaskFormAction::Continue
        },
        KeyCode::Left => {
            form.move_cursor_left();
            MaskFormAction::Continue
        },
        KeyCode::Right => {
            form.move_cursor_right();
            MaskFormAction::Continue
        },
        _ => MaskFormAction::Continue,
    }
}

fn save(form: &mut MaskFormState) -> (a: MaskFormAction)
    ensures
        (final(form)@, mask_action_view(a)) == save_step(old(form)@),
{
    if form.validate() {
        MaskFormAction::Save(form.to_new_mask())
    } else {
        MaskFormAction::Continue
    }
}

/// Handle key events within the header table.
fn handle_header_table_key(key: KeyInput, form: &mut MaskFormState) -> (a: MaskFormAction)
    requires
        mfocus_ok(old(form)@),
        mfocused(old(form)@) == MaskFormField::Headers,
        mask_key_ok(old(form)@, key),
        !(key.ctrl && key.code == KeyCode::Char('c')),
    ensures
        (final(form)@, mask_action_view(a)) == mask_key_spec(old(form)@, key),
{
    match form.header_mode {
        HeaderTableMode::Navigate => handle_header_navigate_key(key, form),
        HeaderTableMode::Edit => handle_header_edit_key(key, form),
    }
}

/// Handle keys in header table navigate mode.
fn handle_header_navigate_key(key: KeyInput, form: &mut MaskFormState) -> (a: MaskFormAction)
    requires
        mfocus_ok(old(form)@),
        mfocused(old(form)@) == MaskFormField::Headers,
        old(form).header_mode == HeaderTableMode::Navigate,
        mask_key_ok(old(form)@, key),
        !(key.ctrl && key.code == KeyCode::Char('c')),
    ensures
        (final(form)@, mask_action_view(a)) == navigate_key_spec(old(form)@, key),
{
    match key.code {
        KeyCode::Char('j') | KeyCode::Down => {
            if form.headers.len() > 0 && form.header_selected_row < form.headers.len() - 1 {
                form.header_selected_row += 1;
            }
            MaskFormAction::Continue
        },
        KeyCode::Char('k') | KeyCode::Up => {
            if form.header_selected_row > 0 {
                form.header_selected_row -= 1;
            }
            MaskFormAction::Continue
        },
        KeyCode::Char('h') | KeyCode::Left => {
            form.header_column = HeaderColumn::Key;
            MaskFormAction::Continue
        },
        KeyCode::Char('l') | KeyCode::Right => {
            form.header_column = HeaderColumn::Value;
            MaskFormAction::Continue
        },
        KeyCode::Char('a') => {
            form.add_header_row();
            MaskFormAction::Continue
        },
        KeyCode::Char('d') => {
            form.delete_header_row();
            MaskFormAction::Continue
        },
        KeyCode::Enter => {
            if form.headers.len() > 0 {
                form.header_mode = HeaderTableMode::Edit;
                let r = form.header_selected_row;
                form.cursor_pos = match form.header_column {
                    HeaderColumn::Key => string_byte_len(&form.headers[r].key),
                    HeaderColumn::Value => string_byte_len(&form.headers[r].value),
                };
            }
            MaskFormAction::Continue
        },
        KeyCode::Esc => {
            form.prev_field();
            MaskFormAction::Continue
        },
        KeyCode::Tab => {
            assert(form.current_field < form.fields.len());
            form.next_field();
            MaskFormAction::Continue
        },
        KeyCode::BackTab => {
            form.prev_field();
            MaskFormAction::Continue
        },
        KeyCode::Char('S') => save(form),
        _ => MaskFormAction::Continue,
    }
}

/// Handle keys in header table edit mode.
fn handle_header_edit_key(key: KeyInput, form: &mut MaskFormState) -> (a: MaskFormAction)
    requires
        mfocus_ok(old(form)@),
        mfocused(old(form)@) == MaskFormField::Headers,
        old(form).header_mode == HeaderTableMode::Edit,
        mask_key_ok(old(form)@, key),
        !(key.ctrl && key.code == KeyCode::Char('c')),
    ensures
        (final(form)@, mask_action_view(a)) == edit_key_spec(old(form)@, key),
{
    match key.code {
        KeyCode::Esc | KeyCode::Enter => {
            form.header_mode = HeaderTableMode::Navigate;
            MaskFormAction::Continue
        },
        KeyCode::Tab => {
            let r = form.header_selected_row;
            match form.header_column {
                HeaderColumn::Key => {
                    form.header_column = HeaderColumn::Value;
                    if r < form.headers.len() {
                        form.cursor_pos = string_byte_len(&form.headers[r].value);
                    }
                },
                HeaderColumn::Value => {
                    form.header_column = HeaderColumn::Key;
                    if r < form.headers.len() {
                        form.cursor_pos = string_byte_len(&form.headers[r].key);
                    }
                },
            }
            MaskFormAction::Continue
        },
        KeyCode::Backspace => {
            form.header_delete_char();
            MaskFormAction::Continue
        },
        KeyCode::Left => {
            if form.cursor_pos > 0 {
                form.cursor_pos -= 1;
            }
            MaskFormAction::Continue
        },
        KeyCode::Right => {
            let r = form.header_selected_row;
            if r < form.headers.len() {
                let len = match form.header_column {
                    HeaderColumn::Key => string_byte_len(&form.headers[r].key),
                    HeaderColumn::Value => string_byte_len(&form.headers[r].value),
                };
                if form.cursor_pos < len {
                    form.cursor_pos += 1;
                }
            }
            MaskFormAction::Continue
        },
        KeyCode::Char(c) => {
            form.header_insert_char(c);
            MaskFormAction::Continue
        },
        _ => MaskFormAction::Continue,
    }
}

/// How a header value shows in the table: one bullet per byte of the
/// value, at most twenty.
pub open spec fn masked_text(value: Seq<char>) -> Seq<char> {
    let n = if byte_len(value) < 20 {
        byte_len(value)
    } else {
        20
    };
    Seq::new(n, |i: int| '\u{2022}')
}

/// The masked display of a header value.
pub fn masked_value(value: &str) -> (s: String)
    ensures
        s@ == masked_text(value@),
{
    let len = crate::text::str_byte_len(value);
    let n = if len < 20 {
        len
    } else {
        20
    };
    let mut s = String::new();
    let mut i: usize = 0;
    while i < n
        invariant
            i <= n,
            s@ == Seq::new(i as nat, |k: int| '\u{2022}'),
        decreases n - i,
    {
        crate::text::push_char(&mut s, '\u{2022}');
        assert(s@ =~= Seq::new((i + 1) as nat, |k: int| '\u{2022}'));
        i = i + 1;
    }
    s
}


/// A law of field focus: Tab then Shift+Tab (and Shift+Tab then Tab) comes
/// back to the same field, with the cursor at the end of its text.
pub proof fn lemma_mask_next_prev_field(v: MaskFormView)
    requires
        mfocus_ok(v),
    ensures
        mprev_field(mnext_field(v)) == (MaskFormView {
            cursor_pos: byte_len(text_value(v, mfocused(v))) as int,
            ..v
        }),
        mnext_field(mprev_field(v)) == (MaskFormView {
            cursor_pos: byte_len(text_value(v, mfocused(v))) as int,
            ..v
        }),
{
    crate::tui::input::lemma_wrap_next(v.current_field, v.fields.len() as int);
}


/// Whether `handle_mask_form_key` can take `key`: the focused field or
/// header row exists, and every edit it would make starts on a character
/// boundary (`String::insert` and `String::remove` panic elsewhere).
pub fn mask_key_allowed(form: &MaskFormState, key: KeyInput) -> (b: bool)
    ensures
        b == mask_key_ok(form@, key),
{
    if key.ctrl && key.code == KeyCode::Char('c') {
        return true;
    }
    if form.current_field >= form.fields.len() {
        return false;
    }
    let f = form.fields[form.current_field];
    let row_ok = form.header_selected_row < form.headers.len();
    if f == MaskFormField::Headers {
        match form.header_mode {
            HeaderTableMode::Navigate => match key.code {
                KeyCode::Char('d') => form.headers.len() == 0 || row_ok,
                KeyCode::Enter => form.headers.len() == 0 || row_ok,
                _ => true,
            },
            HeaderTableMode::Edit => {
                if !row_ok {
                    return true;
                }
                let r = form.header_selected_row;
                let cell = match form.header_column {
                    HeaderColumn::Key => form.headers[r].key.as_str(),
                    HeaderColumn::Value => form.headers[r].value.as_str(),
                };
                let len = crate::text::str_byte_len(cell);
                match key.code {
                    KeyCode::Backspace => {
                        if form.cursor_pos > 0 && form.cursor_pos <= len {
                            crate::text::str_is_char_boundary(cell, form.cursor_pos - 1)
                        } else {
                            true
                        }
                    },
                    KeyCode::Char(_) => {
                        let pos = if form.cursor_pos < len {
                            form.cursor_pos
                        } else {
                            len
                        };
                        crate::text::str_is_char_boundary(cell, pos)
                    },
                    _ => true,
                }
            },
        }
    } else {
        match key.code {
            KeyCode::Char(_) => {
                if f == MaskFormField::AutoStart || f == MaskFormField::Headers {
                    return true;
                }
                let value = form.current_text_value();
                let len = crate::text::str_byte_len(value);
                let pos = if form.cursor_pos < len {
                    form.cursor_pos
                } else {
                    len
                };
                crate::text::str_is_char_boundary(value, pos)
            },
            KeyCode::Backspace => {
                if form.cursor_pos == 0 || !(f == MaskFormField::Name || f == MaskFormField::TargetUrl
                    || f == MaskFormField::Port) {
                    return true;
                }
                let value = form.current_text_value();
                let len = crate::text::str_byte_len(value);
                form.cursor_pos - 1 < len && crate::text::str_is_char_boundary(
                    value,
                    form.cursor_pos - 1,
                )
            },
            _ => true,
        }
    }
}


/// A law of editing: typing a character into a text field and then
/// Backspace leaves the text as it was, with the cursor where the character
/// went in; the Backspace is one the form can take.
pub proof fn lemma_mask_type_then_backspace(v: MaskFormView, c: char)
    requires
        mfocus_ok(v),
        is_text_field(mfocused(v)),
        minsert_ok(v),
    ensures
        mdelete_ok(minsert_char(v, c)),
        mdelete_char(minsert_char(v, c)) == (MaskFormView { cursor_pos: minsert_pos(v), ..v }),
{
    let f = mfocused(v);
    let s = text_value(v, f);
    let pos = minsert_pos(v);
    crate::text::lemma_remove_inserted(s, pos, c);
    let w = minsert_char(v, c);
    assert(mfocused(w) == f);
    assert(text_value(w, f) == insert_at_byte(s, pos, c));
    assert(remove_at_byte(text_value(w, f), w.cursor_pos - 1) == s);
    let d = mdelete_char(w);
    assert(d == (MaskFormView { cursor_pos: pos, ..with_text(w, f, s) }));
    match f {
        MaskFormField::Name => assert(d == (MaskFormView { cursor_pos: pos, ..v })),
        MaskFormField::TargetUrl => assert(d == (MaskFormView { cursor_pos: pos, ..v })),
        MaskFormField::Port => assert(d == (MaskFormView { cursor_pos: pos, ..v })),
        _ => {},
    }
}

} // verus!
