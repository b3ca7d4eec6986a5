//! Where overlays go on the screen, in terminal cells, and how long texts
//! are shortened to fit.

use vstd::prelude::*;
use vstd::utf8::{decode_utf8, encode_utf8, encode_utf8_decode_utf8};

use crate::text::{byte_len, char_boundary, push_str, str_byte_len, to_owned_string};

verus! {

pub open spec fn min_u(a: int, b: int) -> int {
    if a <= b {
        a
    } else {
        b
    }
}

pub open spec fn sat_sub(a: int, b: int) -> int {
    if a >= b {
        a - b
    } else {
        0
    }
}

/// A popup of at most `width` by `height` cells, kept two cells clear of
/// each edge of the screen, centered: `(x, y, width, height)`.
pub open spec fn centered_popup_spec(area_w: int, area_h: int, width: int, height: int) -> (
    int,
    int,
    int,
    int,
) {
    let w = min_u(width, sat_sub(area_w, 4));
    let h = min_u(height, sat_sub(area_h, 4));
    (sat_sub(area_w, w) / 2, sat_sub(area_h, h) / 2, w, h)
}

/// The rectangle of a centered popup.
pub fn centered_popup(area_w: u16, area_h: u16, width: u16, height: u16) -> (r: (
    u16,
    u16,
    u16,
    u16,
))
    ensures
        (r.0 as int, r.1 as int, r.2 as int, r.3 as int) == centered_popup_spec(
            area_w as int,
            area_h as int,
            width as int,
            height as int,
        ),
        r.0 + r.2 <= area_w,
        r.1 + r.3 <= area_h,
{
    let w = if width < area_w.saturating_sub(4) {
        width
    } else {
        area_w.saturating_sub(4)
    };
    let h = if height < area_h.saturating_sub(4) {
        height
    } else {
        area_h.saturating_sub(4)
    };
    (area_w.saturating_sub(w) / 2, area_h.saturating_sub(h) / 2, w, h)
}

/// The file browser's popup: 60% of the width and 70% of the height, at
/// least 30 by 10 cells, yet one cell clear of each edge; centered.
pub open spec fn browser_popup_spec(area_w: int, area_h: int) -> (int, int, int, int) {
    let w0 = area_w * 60 / 100;
    let h0 = area_h * 70 / 100;
    let w1 = if w0 < 30 {
        30
    } else {
        w0
    };
    let h1 = if h0 < 10 {
        10
    } else {
        h0
    };
    let w = min_u(w1, sat_sub(area_w, 2));
    let h = min_u(h1, sat_sub(area_h, 2));
    (sat_sub(area_w, w) / 2, sat_sub(area_h, h) / 2, w, h)
}

/// The rectangle of the file browser's popup.
pub fn browser_popup(area_w: u16, area_h: u16) -> (r: (u16, u16, u16, u16))
    ensures
        (r.0 as int, r.1 as int, r.2 as int, r.3 as int) == browser_popup_spec(
            area_w as int,
            area_h as int,
        ),
        r.0 + r.2 <= area_w,
        r.1 + r.3 <= area_h,
{
    let w0 = ((area_w as u32 * 60) / 100) as u16;
    let h0 = ((area_h as u32 * 70) / 100) as u16;
    let w1 = if w0 < 30 {
        30
    } else {
        w0
    };
    let h1 = if h0 < 10 {
        10
    } else {
        h0
    };
    let w = if w1 < area_w.saturating_sub(2) {
        w1
    } else {
        area_w.saturating_sub(2)
    };
    let h = if h1 < area_h.saturating_sub(2) {
        h1
    } else {
        area_h.saturating_sub(2)
    };
    (area_w.saturating_sub(w) / 2, area_h.saturating_sub(h) / 2, w, h)
}

/// The first entry shown in a list `visible` rows high so that entry
/// `selected` is on screen (as the last row when it lies below the top
/// page).
pub open spec fn list_offset_spec(selected: int, visible: int) -> int {
    if selected >= visible {
        selected - visible + 1
    } else {
        0
    }
}

/// The scroll offset that keeps the selection visible.
pub fn list_offset(selected: usize, visible: usize) -> (r: usize)
    requires
        visible > 0 || selected < usize::MAX,
    ensures
        r == list_offset_spec(selected as int, visible as int),
        visible > 0 ==> r <= selected < r + visible,
{
    if selected >= visible {
        selected - visible + 1
    } else {
        0
    }
}

/// The text of the first `n` bytes of `s`.
pub open spec fn byte_prefix(s: Seq<char>, n: int) -> Seq<char> {
    decode_utf8(encode_utf8(s).take(n))
}

/// `s` cut to its first `max_len` bytes when it is longer (`&s[..max_len]`,
/// which must end on a character boundary; slicing panics elsewhere).
pub fn truncate_str(s: &str, max_len: usize) -> (r: &str)
    requires
        byte_len(s@) > max_len ==> char_boundary(s@, max_len as int),
    ensures
        r@ == if byte_len(s@) <= max_len {
            s@
        } else {
            byte_prefix(s@, max_len as int)
        },
{
    if str_byte_len(s) <= max_len {
        s
    } else {
        let (head, _) = s.split_at(max_len);
        proof {
            broadcast use encode_utf8_decode_utf8;

            assert(encode_utf8(head@) =~= encode_utf8(s@).take(max_len as int));
            assert(decode_utf8(encode_utf8(head@)) == head@);
            assert(head@ == byte_prefix(s@, max_len as int));
        }
        head
    }
}

/// What `Path::strip_prefix` leaves of `path` once `base` is taken off its
/// front, component by component: `None` when `base` is not a prefix of it.
pub uninterp spec fn path_strip_prefix(path: Seq<char>, base: Seq<char>) -> Option<Seq<char>>;

/// `std::path::Path::strip_prefix`, its result shown as text. The result
/// is named, not stated: it compares paths by components.
#[verifier::external_body]
fn strip_path_prefix(path: &str, base: &str) -> (r: Option<String>)
    ensures
        r is Some <==> path_strip_prefix(path@, base@) is Some,
        r matches Some(rest) ==> rest@ == path_strip_prefix(path@, base@)->Some_0,
{
    std::path::Path::new(path).strip_prefix(base).ok().map(|p| p.display().to_string())
}

/// A path as the file browser shows it: under the home directory (when
/// there is one) as `~/` and the rest, else as it is.
pub open spec fn abbreviated(path: Seq<char>, home: Option<Seq<char>>) -> Seq<char> {
    match home {
        Some(h) => match path_strip_prefix(path, h) {
            Some(rest) => "~/"@ + rest,
            None => path,
        },
        None => path,
    }
}

/// Shortens a path under the home directory to `~/...`.
pub fn abbreviate_home(path: &str, home: Option<&str>) -> (r: String)
    ensures
        r@ == abbreviated(path@, match home {
            Some(h) => Some(h@),
            None => None,
        }),
{
    if let Some(h) = home {
        if let Some(rest) = strip_path_prefix(path, h) {
            let mut r = to_owned_string("~/");
            push_str(&mut r, rest.as_str());
            return r;
        }
    }
    to_owned_string(path)
}

} // verus!
