//! Directory picker: navigation over a listing of subdirectories.
//!
//! Reading a directory is the caller's part: it hands `refresh_entries` the
//! subdirectories of `current_dir` as (path, name) pairs, and does so again
//! whenever a key moves the browser to another directory.

use vstd::prelude::*;

use crate::tui::input::{KeyCode, KeyInput};

verus! {

broadcast use vstd::seq_lib::group_to_multiset_ensures;

/// State for the file browser overlay.
#[derive(Debug, Clone)]
pub struct FileBrowser {
    pub current_dir: String,
    pub entries: Vec<String>,
    pub selected_index: usize,
    pub visible: bool,
}

/// Result of handling a key event in the file browser.
#[derive(Debug, Clone, PartialEq)]
pub enum BrowserAction {
    /// Stay in the browser (no-op).
    Continue,
    /// A directory was selected; contains the chosen path.
    Select(String),
    /// User cancelled the browser.
    Cancel,
}

/// The browser as plain values.
pub ghost struct BrowserView {
    pub current_dir: Seq<char>,
    pub entries: Seq<Seq<char>>,
    pub selected: int,
    pub visible: bool,
}

impl View for FileBrowser {
    type V = BrowserView;

    open spec fn view(&self) -> BrowserView {
        BrowserView {
            current_dir: self.current_dir@,
            entries: self.entries@.map_values(|e: String| e@),
            selected: self.selected_index as int,
            visible: self.visible,
        }
    }
}

/// A browser action as plain values.
pub ghost enum BrowserActionView {
    Continue,
    Select(Seq<char>),
    Cancel,
}

pub open spec fn browser_action_view(a: BrowserAction) -> BrowserActionView {
    match a {
        BrowserAction::Continue => BrowserActionView::Continue,
        BrowserAction::Select(p) => BrowserActionView::Select(p@),
        BrowserAction::Cancel => BrowserActionView::Cancel,
    }
}

// ---------------------------------------------------------------------------
// Ordering of directory names.
// ---------------------------------------------------------------------------

/// ASCII lower case of a character; other characters are unchanged.
pub open spec fn ascii_lower(c: char) -> char {
    if 'A' <= c <= 'Z' {
        ((c as u32) + 32) as char
    } else {
        c
    }
}

pub open spec fn lower_name(s: Seq<char>) -> Seq<char> {
    s.map_values(|c: char| ascii_lower(c))
}

/// Lexicographic order of character sequences by code point.
pub open spec fn seq_le(a: Seq<char>, b: Seq<char>) -> bool
    decreases a.len(),
{
    if a.len() == 0 {
        true
    } else if b.len() == 0 {
        false
    } else if (a[0] as u32) < (b[0] as u32) {
        true
    } else if (a[0] as u32) > (b[0] as u32) {
        false
    } else {
        seq_le(a.drop_first(), b.drop_first())
    }
}

/// Whether directory `x` comes no later than `y`: by name, ignoring ASCII
/// case.
pub open spec fn name_le(x: (Seq<char>, Seq<char>), y: (Seq<char>, Seq<char>)) -> bool {
    seq_le(lower_name(x.1), lower_name(y.1))
}

/// The first position in `s` whose name sorts strictly after `e`'s.
pub open spec fn insert_pos(s: Seq<(Seq<char>, Seq<char>)>, e: (Seq<char>, Seq<char>)) -> nat
    decreases s.len(),
{
    if s.len() == 0 {
        0
    } else if !name_le(s[0], e) {
        0
    } else {
        1 + insert_pos(s.drop_first(), e)
    }
}

/// `e` inserted after every entry that sorts no later than it.
pub open spec fn insert_sorted(s: Seq<(Seq<char>, Seq<char>)>, e: (Seq<char>, Seq<char>)) -> Seq<
    (Seq<char>, Seq<char>),
> {
    s.insert(insert_pos(s, e) as int, e)
}

/// A stable sort of directories by name, ignoring ASCII case.
pub open spec fn sort_by_name(s: Seq<(Seq<char>, Seq<char>)>) -> Seq<(Seq<char>, Seq<char>)>
    decreases s.len(),
{
    if s.len() == 0 {
        Seq::empty()
    } else {
        insert_sorted(sort_by_name(s.drop_last()), s.last())
    }
}

pub open spec fn is_hidden(e: (Seq<char>, Seq<char>)) -> bool {
    e.1.len() > 0 && e.1[0] == '.'
}

/// The entries of a listing whose names start (`hidden`) or do not start
/// with a dot, in listing order.
pub open spec fn split_hidden(s: Seq<(Seq<char>, Seq<char>)>, hidden: bool) -> Seq<
    (Seq<char>, Seq<char>),
>
    decreases s.len(),
{
    if s.len() == 0 {
        Seq::empty()
    } else if is_hidden(s.last()) == hidden {
        split_hidden(s.drop_last(), hidden).push(s.last())
    } else {
        split_hidden(s.drop_last(), hidden)
    }
}

/// The browser's order of a listing: regular directories by name, then
/// hidden ones by name; each given by its path.
pub open spec fn ordered_entries(listing: Seq<(Seq<char>, Seq<char>)>) -> Seq<Seq<char>> {
    (sort_by_name(split_hidden(listing, false)) + sort_by_name(split_hidden(listing, true))).map_values(
        |e: (Seq<char>, Seq<char>)| e.0,
    )
}

pub open spec fn sorted_by_name(s: Seq<(Seq<char>, Seq<char>)>) -> bool {
    forall|i: int, j: int| 0 <= i < j < s.len() ==> name_le(#[trigger] s[i], #[trigger] s[j])
}

pub proof fn lemma_seq_le_total(a: Seq<char>, b: Seq<char>)
    ensures
        seq_le(a, b) || seq_le(b, a),
    decreases a.len(),
{
    if a.len() > 0 && b.len() > 0 && a[0] as u32 == b[0] as u32 {
        lemma_seq_le_total(a.drop_first(), b.drop_first());
    }
}

pub proof fn lemma_seq_le_trans(a: Seq<char>, b: Seq<char>, c: Seq<char>)
    requires
        seq_le(a, b),
        seq_le(b, c),
    ensures
        seq_le(a, c),
    decreases a.len(),
{
    if a.len() > 0 && b.len() > 0 && c.len() > 0 && a[0] as u32 == b[0] as u32 && b[0] as u32
        == c[0] as u32 {
        lemma_seq_le_trans(a.drop_first(), b.drop_first(), c.drop_first());
    }
}

proof fn lemma_insert_pos(s: Seq<(Seq<char>, Seq<char>)>, e: (Seq<char>, Seq<char>))
    requires
        sorted_by_name(s),
    ensures
        insert_pos(s, e) <= s.len(),
        forall|i: int| 0 <= i < insert_pos(s, e) ==> name_le(#[trigger] s[i], e),
        forall|i: int| insert_pos(s, e) <= i < s.len() ==> name_le(e, #[trigger] s[i]),
    decreases s.len(),
{
    if s.len() > 0 {
        let t = s.drop_first();
        assert(sorted_by_name(t)) by {
            assert forall|i: int, j: int| 0 <= i < j < t.len() implies name_le(
                #[trigger] t[i],
                #[trigger] t[j],
            ) by {
                assert(t[i] == s[i + 1] && t[j] == s[j + 1]);
            }
        }
        lemma_insert_pos(t, e);
        if !name_le(s[0], e) {
            lemma_seq_le_total(lower_name(s[0].1), lower_name(e.1));
            assert forall|i: int| 0 <= i < s.len() implies name_le(e, #[trigger] s[i]) by {
                if i > 0 {
                    lemma_seq_le_trans(lower_name(e.1), lower_name(s[0].1), lower_name(s[i].1));
                }
            }
        } else {
            assert forall|i: int| 0 <= i < insert_pos(s, e) implies name_le(#[trigger] s[i], e) by {
                if i > 0 {
                    assert(s[i] == t[i - 1]);
                }
            }
            assert forall|i: int| insert_pos(s, e) <= i < s.len() implies name_le(
                e,
                #[trigger] s[i],
            ) by {
                assert(s[i] == t[i - 1]);
            }
        }
    }
}

/// Inserting into a sorted listing keeps it sorted.
pub proof fn lemma_insert_sorted(s: Seq<(Seq<char>, Seq<char>)>, e: (Seq<char>, Seq<char>))
    requires
        sorted_by_name(s),
    ensures
        sorted_by_name(insert_sorted(s, e)),
        insert_sorted(s, e).to_multiset() == s.to_multiset().insert(e),
{
    lemma_insert_pos(s, e);
    let p = insert_pos(s, e) as int;
    let r = insert_sorted(s, e);
    assert forall|i: int, j: int| 0 <= i < j < r.len() implies name_le(
        #[trigger] r[i],
        #[trigger] r[j],
    ) by {
        if j < p {
            assert(r[i] == s[i] && r[j] == s[j]);
        } else if j == p {
            assert(r[i] == s[i]);
        } else if i < p {
            assert(r[i] == s[i] && r[j] == s[j - 1]);
            lemma_seq_le_trans(lower_name(s[i].1), lower_name(e.1), lower_name(s[j - 1].1));
        } else if i == p {
            assert(r[j] == s[j - 1]);
        } else {
            assert(r[i] == s[i - 1] && r[j] == s[j - 1]);
        }
    }
    vstd::seq_lib::to_multiset_insert(s, p, e);
}

/// A law of the browser's ordering: the sort returns the same directories,
/// ordered by name.
pub proof fn lemma_sort_by_name(s: Seq<(Seq<char>, Seq<char>)>)
    ensures
        sorted_by_name(sort_by_name(s)),
        sort_by_name(s).to_multiset() == s.to_multiset(),
    decreases s.len(),
{
    if s.len() > 0 {
        lemma_sort_by_name(s.drop_last());
        lemma_insert_sorted(sort_by_name(s.drop_last()), s.last());
        assert(s =~= s.drop_last().push(s.last()));
        vstd::seq_lib::to_multiset_build(s.drop_last(), s.last());
    }
}

// ---------------------------------------------------------------------------
// Executable ordering.
// ---------------------------------------------------------------------------

pub open spec fn listing_view(l: Seq<(String, String)>) -> Seq<(Seq<char>, Seq<char>)> {
    l.map_values(|e: (String, String)| (e.0@, e.1@))
}

/// The code point of a character's ASCII lower case.
fn lower_code(c: char) -> (r: u32)
    ensures
        r == ascii_lower(c) as u32,
{
    if 'A' <= c && c <= 'Z' {
        (c as u32) + 32
    } else {
        c as u32
    }
}

/// Whether `a` sorts no later than `b`, ignoring ASCII case.
fn names_le(a: &str, b: &str) -> (r: bool)
    ensures
        r == seq_le(lower_name(a@), lower_name(b@)),
{
    let la = a.unicode_len();
    let lb = b.unicode_len();
    let mut i: usize = 0;
    assert(lower_name(a@).skip(0) =~= lower_name(a@));
    assert(lower_name(b@).skip(0) =~= lower_name(b@));
    while i < la && i < lb
        invariant
            la == a@.len(),
            lb == b@.len(),
            i <= la,
            i <= lb,
            forall|k: int| 0 <= k < i ==> ascii_lower(#[trigger] a@[k]) == ascii_lower(b@[k]),
            seq_le(lower_name(a@), lower_name(b@)) == seq_le(
                lower_name(a@).skip(i as int),
                lower_name(b@).skip(i as int),
            ),
        decreases la - i,
    {
        let ca = lower_code(a.get_char(i));
        let cb = lower_code(b.get_char(i));
        let ghost sa = lower_name(a@).skip(i as int);
        let ghost sb = lower_name(b@).skip(i as int);
        assert(sa[0] as u32 == ca && sb[0] as u32 == cb);
        if ca < cb {
            return true;
        }
        if ca > cb {
            return false;
        }
        assert(sa.drop_first() =~= lower_name(a@).skip(i + 1));
        assert(sb.drop_first() =~= lower_name(b@).skip(i + 1));
        i = i + 1;
    }
    assert(lower_name(a@).skip(i as int).len() == la - i);
    assert(lower_name(b@).skip(i as int).len() == lb - i);
    i == la
}

/// Inserts `e` into `sorted` after every entry whose name sorts no later.
fn insert_by_name(sorted: &mut Vec<(String, String)>, e: (String, String))
    ensures
        listing_view(final(sorted)@) == insert_sorted(listing_view(old(sorted)@), (e.0@, e.1@)),
{
    let ghost s = listing_view(sorted@);
    let ghost ev = (e.0@, e.1@);
    let mut j: usize = 0;
    assert(s.skip(0) =~= s);
    while j < sorted.len() && names_le(sorted[j].1.as_str(), e.1.as_str())
        invariant
            j <= sorted.len(),
            s == listing_view(sorted@),
            ev == (e.0@, e.1@),
            insert_pos(s, ev) == j + insert_pos(s.skip(j as int), ev),
        decreases sorted.len() - j,
    {
        assert(s.skip(j as int)[0] == s[j as int]);
        assert(s.skip(j as int).drop_first() =~= s.skip(j + 1));
        j = j + 1;
    }
    if j < sorted.len() {
        assert(s.skip(j as int)[0] == s[j as int]);
    }
    assert(insert_pos(s.skip(j as int), ev) == 0);
    sorted.insert(j, e);
    assert(listing_view(sorted@) =~= insert_sorted(s, ev));
}

/// Stable sort of directories by name, ignoring ASCII case.
fn sort_listing(items: Vec<(String, String)>) -> (r: Vec<(String, String)>)
    ensures
        listing_view(r@) == sort_by_name(listing_view(items@)),
{
    let ghost lv = listing_view(items@);
    let mut r: Vec<(String, String)> = Vec::new();
    let mut i: usize = 0;
    assert(lv.take(0) =~= Seq::<(Seq<char>, Seq<char>)>::empty());
    while i < items.len()
        invariant
            i <= items.len(),
            lv == listing_view(items@),
            listing_view(r@) == sort_by_name(lv.take(i as int)),
        decreases items.len() - i,
    {
        assert(lv.take(i + 1).drop_last() =~= lv.take(i as int));
        let e = (items[i].0.clone(), items[i].1.clone());
        insert_by_name(&mut r, e);
        i = i + 1;
    }
    assert(lv.take(items.len() as int) =~= lv);
    r
}

fn starts_with_dot(name: &str) -> (b: bool)
    ensures
        b == (name@.len() > 0 && name@[0] == '.'),
{
    name.unicode_len() > 0 && name.get_char(0) == '.'
}

/// `std::path::Path::parent`, lexically: the path without its final
/// component, or none where the path ends in a root or prefix, or is empty.
pub uninterp spec fn path_parent(path: Seq<char>) -> Option<Seq<char>>;

/// `std::path::Path::parent` on a path given as text. The result is named;
/// of it the documentation says that a root (`/`) and the empty path have
/// no parent, and the source shows that a parent is the path with its last
/// (non-empty) component taken off, so it is shorter than the path.
#[verifier::external_body]
fn parent_of(path: &str) -> (r: Option<String>)
    ensures
        r.is_some() == path_parent(path@).is_some(),
        r.is_some() ==> r.unwrap()@ == path_parent(path@).unwrap(),
        path@ == "/"@ ==> r.is_none(),
        path@.len() == 0 ==> r.is_none(),
        r matches Some(p) ==> p@.len() < path@.len(),
{
    std::path::Path::new(path).parent().map(|p| p.to_string_lossy().into_owned())
}

// ---------------------------------------------------------------------------
// The browser as a state machine.
// ---------------------------------------------------------------------------

/// The directory a browser opens at: the start path where one is given and
/// names a directory, else the home directory.
pub open spec fn start_dir(start: Seq<char>, start_is_dir: bool, home: Seq<char>) -> Seq<char> {
    if start.len() == 0 {
        home
    } else if start_is_dir {
        start
    } else {
        home
    }
}

/// The selection kept within a listing of `n` entries.
pub open spec fn clamp_selected(sel: int, n: int) -> int {
    if n == 0 {
        0
    } else if sel >= n {
        n - 1
    } else {
        sel
    }
}

pub open spec fn refresh_v(v: BrowserView, listing: Seq<(Seq<char>, Seq<char>)>) -> BrowserView {
    let entries = ordered_entries(listing);
    BrowserView { entries, selected: clamp_selected(v.selected, entries.len() as int), ..v }
}

pub open spec fn move_down_v(v: BrowserView) -> BrowserView {
    if v.entries.len() == 0 {
        v
    } else {
        BrowserView { selected: (v.selected + 1) % (v.entries.len() as int), ..v }
    }
}

pub open spec fn move_up_v(v: BrowserView) -> BrowserView {
    if v.entries.len() == 0 {
        v
    } else if v.selected == 0 {
        BrowserView { selected: v.entries.len() - 1, ..v }
    } else {
        BrowserView { selected: v.selected - 1, ..v }
    }
}

/// Into the selected directory; its listing is then to be read.
pub open spec fn enter_v(v: BrowserView) -> BrowserView {
    if 0 <= v.selected < v.entries.len() {
        BrowserView {
            current_dir: v.entries[v.selected],
            entries: Seq::empty(),
            selected: 0,
            ..v
        }
    } else {
        v
    }
}

/// Up to the parent directory; at a root, nowhere.
pub open spec fn go_up_v(v: BrowserView) -> BrowserView {
    match path_parent(v.current_dir) {
        Some(p) => if p != v.current_dir {
            BrowserView { current_dir: p, entries: Seq::empty(), selected: 0, ..v }
        } else {
            v
        },
        None => v,
    }
}

pub open spec fn browser_key_spec(v: BrowserView, key: KeyInput) -> (BrowserView, BrowserActionView) {
    match key.code {
        KeyCode::Char('j') | KeyCode::Down => (move_down_v(v), BrowserActionView::Continue),
        KeyCode::Char('k') | KeyCode::Up => (move_up_v(v), BrowserActionView::Continue),
        KeyCode::Enter | KeyCode::Char('l') => (enter_v(v), BrowserActionView::Continue),
        KeyCode::Char('h') | KeyCode::Backspace => (go_up_v(v), BrowserActionView::Continue),
        KeyCode::Char('.') => (v, BrowserActionView::Select(v.current_dir)),
        KeyCode::Esc | KeyCode::Char('q') => (v, BrowserActionView::Cancel),
        _ => (v, BrowserActionView::Continue),
    }
}

impl FileBrowser {
    /// A browser at the start path, or at `home` where the start path is
    /// empty or not a directory. Its listing is then to be read with
    /// `refresh_entries`.
    pub fn new(start_path: &str, start_is_dir: bool, home: &str) -> (b: FileBrowser)
        ensures
            b@ == (BrowserView {
                current_dir: start_dir(start_path@, start_is_dir, home@),
                entries: Seq::empty(),
                selected: 0,
                visible: true,
            }),
    {
        let dir = if start_path.unicode_len() == 0 {
            crate::text::to_owned_string(home)
        } else if start_is_dir {
            crate::text::to_owned_string(start_path)
        } else {
            crate::text::to_owned_string(home)
        };
        let b = FileBrowser { current_dir: dir, entries: Vec::new(), selected_index: 0, visible: true };
        assert(b@.entries =~= Seq::<Seq<char>>::empty());
        b
    }

    /// Replaces the entries with the subdirectories of `current_dir`, given
    /// as (path, name) pairs: regular directories first, hidden ones last,
    /// each group by name ignoring ASCII case; the selection is kept within
    /// the listing.
    pub fn refresh_entries(&mut self, listing: Vec<(String, String)>)
        ensures
            final(self)@ == refresh_v(old(self)@, listing_view(listing@)),
    {
        let ghost lv = listing_view(listing@);
        let mut regular: Vec<(String, String)> = Vec::new();
        let mut hidden: Vec<(String, String)> = Vec::new();
        let mut i: usize = 0;
        assert(lv.take(0) =~= Seq::<(Seq<char>, Seq<char>)>::empty());
        while i < listing.len()
            invariant
                i <= listing.len(),
                lv == listing_view(listing@),
                listing_view(regular@) == split_hidden(lv.take(i as int), false),
                listing_view(hidden@) == split_hidden(lv.take(i as int), true),
            decreases listing.len() - i,
        {
            assert(lv.take(i + 1).drop_last() =~= lv.take(i as int));
            assert(lv.take(i + 1).last() == lv[i as int]);
            let e = (listing[i].0.clone(), listing[i].1.clone());
            if starts_with_dot(e.1.as_str()) {
                hidden.push(e);
                assert(listing_view(hidden@) =~= split_hidden(lv.take(i as int), true).push(lv[i as int]));
            } else {
                regular.push(e);
                assert(listing_view(regular@) =~= split_hidden(lv.take(i as int), false).push(lv[i as int]));
            }
            i = i + 1;
        }
        assert(lv.take(listing.len() as int) =~= lv);
        let regular = sort_listing(regular);
        let hidden = sort_listing(hidden);
        let ghost both = listing_view(regular@) + listing_view(hidden@);
        let mut entries: Vec<String> = Vec::new();
        let mut k: usize = 0;
        while k < regular.len()
            invariant
                k <= regular.len(),
                both == listing_view(regular@) + listing_view(hidden@),
                entries.len() == k,
                forall|m: int| 0 <= m < k ==> #[trigger] entries@[m]@ == both[m].0,
            decreases regular.len() - k,
        {
            entries.push(regular[k].0.clone());
            k = k + 1;
        }
        let mut k: usize = 0;
        while k < hidden.len()
            invariant
                k <= hidden.len(),
                both == listing_view(regular@) + listing_view(hidden@),
                entries.len() == regular.len() + k,
                forall|m: int| 0 <= m < regular.len() + k ==> #[trigger] entries@[m]@ == both[m].0,
            decreases hidden.len() - k,
        {
            entries.push(hidden[k].0.clone());
            k = k + 1;
        }
        assert(entries@.map_values(|e: String| e@) =~= both.map_values(
            |e: (Seq<char>, Seq<char>)| e.0,
        ));
        self.entries = entries;
        if self.entries.len() == 0 {
            self.selected_index = 0;
        } else if self.selected_index >= self.entries.len() {
            self.selected_index = self.entries.len() - 1;
        }
    }

    /// Navigate selection down (wraps).
    pub fn move_down(&mut self)
        requires
            old(self).entries.len() > 0 ==> old(self).selected_index < usize::MAX,
        ensures
            final(self)@ == move_down_v(old(self)@),
    {
        if self.entries.len() > 0 {
            self.selected_index = (self.selected_index + 1) % self.entries.len();
        }
    }

    /// Navigate selection up (wraps).
    pub fn move_up(&mut self)
        ensures
            final(self)@ == move_up_v(old(self)@),
    {
        if self.entries.len() > 0 {
            if self.selected_index == 0 {
                self.selected_index = self.entries.len() - 1;
            } else {
                self.selected_index -= 1;
            }
        }
    }

    /// Enters the selected directory. Returns whether the browser moved, in
    /// which case the new directory's listing is to be read.
    pub fn enter_selected(&mut self) -> (moved: bool)
        ensures
            final(self)@ == enter_v(old(self)@),
            moved == (0 <= old(self)@.selected < old(self)@.entries.len()),
    {
        if self.selected_index < self.entries.len() {
            let entry = self.entries[self.selected_index].clone();
            self.current_dir = entry;
            self.selected_index = 0;
            self.entries = Vec::new();
            assert(self@.entries =~= Seq::<Seq<char>>::empty());
            true
        } else {
            false
        }
    }

    /// Goes up to the parent directory; at the root it stays. Returns whether
    /// the browser moved, in which case the new directory's listing is to be
    /// read.
    pub fn go_up(&mut self) -> (moved: bool)
        ensures
            final(self)@ == go_up_v(old(self)@),
            moved == (final(self)@ != old(self)@),
            moved == (path_parent(old(self)@.current_dir) is Some),
            old(self)@.current_dir == "/"@ ==> !moved,
    {
        match parent_of(self.current_dir.as_str()) {
            Some(parent) => {
                if crate::text::str_eq(parent.as_str(), self.current_dir.as_str()) {
                    false
                } else {
                    self.current_dir = parent;
                    self.selected_index = 0;
                    self.entries = Vec::new();
                    assert(self@.entries =~= Seq::<Seq<char>>::empty());
                    assert(self@.current_dir != old(self)@.current_dir);
                    true
                }
            },
            None => false,
        }
    }

    /// Select current directory (return its path).
    pub fn select_current(&self) -> (p: String)
        ensures
            p@ == self.current_dir@,
    {
        self.current_dir.clone()
    }

    /// Get the currently highlighted entry.
    pub fn selected_entry(&self) -> (e: Option<&String>)
        ensures
            e.is_some() == (self.selected_index < self.entries.len()),
            e.is_some() ==> e.unwrap()@ == self@.entries[self.selected_index as int],
    {
        if self.selected_index < self.entries.len() {
            Some(&self.entries[self.selected_index])
        } else {
            None
        }
    }
}

/// Handle a key event within the file browser, returning the resulting action.
pub fn handle_browser_key(key: KeyInput, browser: &mut FileBrowser) -> (a: BrowserAction)
    requires
        (key.code == KeyCode::Char('j') || key.code == KeyCode::Down) && old(browser).entries.len() > 0
            ==> old(browser).selected_index < usize::MAX,
    ensures
        (final(browser)@, browser_action_view(a)) == browser_key_spec(old(browser)@, key),
        (key.code == KeyCode::Char('h') || key.code == KeyCode::Backspace) ==> (path_parent(
            old(browser)@.current_dir,
        ) matches Some(p) ==> final(browser)@.current_dir == p && final(browser)@.selected == 0),
        (key.code == KeyCode::Char('h') || key.code == KeyCode::Backspace)
            && old(browser)@.current_dir == "/"@ ==> final(browser)@ == old(browser)@,
{
    match key.code {
        KeyCode::Char('j') | KeyCode::Down => {
            browser.move_down();
            BrowserAction::Continue
        },
        KeyCode::Char('k') | KeyCode::Up => {
            browser.move_up();
            BrowserAction::Continue
        },
        KeyCode::Enter | KeyCode::Char('l') => {
            browser.enter_selected();
            BrowserAction::Continue
        },
        KeyCode::Char('h') | KeyCode::Backspace => {
            browser.go_up();
            BrowserAction::Continue
        },
        KeyCode::Char('.') => BrowserAction::Select(browser.select_current()),
        KeyCode::Esc | KeyCode::Char('q') => BrowserAction::Cancel,
        _ => BrowserAction::Continue,
    }
}


/// A law of the browser: on a non-empty listing, moving down then up (and
/// up then down) comes back to the same entry.
pub proof fn lemma_move_down_up(v: BrowserView)
    requires
        0 <= v.selected < v.entries.len(),
    ensures
        move_up_v(move_down_v(v)) == v,
        move_down_v(move_up_v(v)) == v,
        0 <= move_down_v(v).selected < v.entries.len(),
        0 <= move_up_v(v).selected < v.entries.len(),
{
    crate::tui::input::lemma_wrap_next(v.selected, v.entries.len() as int);
}

} // verus!
