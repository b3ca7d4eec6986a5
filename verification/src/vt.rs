//! VT parsing and a scrollback ring buffer for terminal output rendering.
//!
//! Bytes go through the `vte` state machine; what it reports (printable
//! characters, control characters, SGR parameter groups) becomes a list of
//! terminal actions, which this module applies to a bounded scrollback.

use std::collections::VecDeque;
use vstd::prelude::*;

verus! {

// ---------------------------------------------------------------------------
// Colours and styles.
// ---------------------------------------------------------------------------

/// A terminal colour.
#[derive(Debug, Clone, Copy, PartialEq, Eq, Structural)]
pub enum CellColor {
    Reset,
    Black,
    Red,
    Green,
    Yellow,
    Blue,
    Magenta,
    Cyan,
    Gray,
    DarkGray,
    LightRed,
    LightGreen,
    LightYellow,
    LightBlue,
    LightMagenta,
    LightCyan,
    White,
    Rgb(u8, u8, u8),
    Indexed(u8),
}

/// Bold text.
pub const MOD_BOLD: u16 = 1u16;

/// Italic text.
pub const MOD_ITALIC: u16 = 4u16;

/// Underlined text.
pub const MOD_UNDERLINED: u16 = 8u16;

/// The style of one cell: colours set (if any) and the emphasis bits added
/// and removed.
#[derive(Debug, Clone, Copy, PartialEq, Eq, Structural)]
pub struct CellStyle {
    pub fg: Option<CellColor>,
    pub bg: Option<CellColor>,
    pub add_modifier: u16,
    pub sub_modifier: u16,
}

pub open spec fn default_style() -> CellStyle {
    CellStyle { fg: None, bg: None, add_modifier: 0, sub_modifier: 0 }
}

/// The style with emphasis `m` added (and no longer removed).
pub open spec fn with_modifier(s: CellStyle, m: u16) -> CellStyle {
    CellStyle { add_modifier: s.add_modifier | m, sub_modifier: s.sub_modifier & !m, ..s }
}

/// The style with emphasis `m` removed (and no longer added).
pub open spec fn without_modifier(s: CellStyle, m: u16) -> CellStyle {
    CellStyle { add_modifier: s.add_modifier & !m, sub_modifier: s.sub_modifier | m, ..s }
}

impl CellStyle {
    /// The style that sets nothing.
    pub fn new() -> (s: CellStyle)
        ensures
            s == default_style(),
    {
        CellStyle { fg: None, bg: None, add_modifier: 0, sub_modifier: 0 }
    }

    /// Adds an emphasis.
    pub fn add(self, m: u16) -> (s: CellStyle)
        ensures
            s == with_modifier(self, m),
    {
        CellStyle { add_modifier: self.add_modifier | m, sub_modifier: self.sub_modifier & !m, ..self }
    }

    /// Removes an emphasis.
    pub fn remove(self, m: u16) -> (s: CellStyle)
        ensures
            s == without_modifier(self, m),
    {
        CellStyle { add_modifier: self.add_modifier & !m, sub_modifier: self.sub_modifier | m, ..self }
    }

    /// Whether every bit of `m` is among the added emphases.
    pub fn has_modifier(&self, m: u16) -> (b: bool)
        ensures
            b == (self.add_modifier & m == m),
    {
        self.add_modifier & m == m
    }
}

/// Colours of SGR parameters 30-37 and 40-47, by offset.
pub open spec fn standard_color(n: u16) -> CellColor {
    if n == 0 {
        CellColor::Black
    } else if n == 1 {
        CellColor::Red
    } else if n == 2 {
        CellColor::Green
    } else if n == 3 {
        CellColor::Yellow
    } else if n == 4 {
        CellColor::Blue
    } else if n == 5 {
        CellColor::Magenta
    } else if n == 6 {
        CellColor::Cyan
    } else if n == 7 {
        CellColor::Gray
    } else {
        CellColor::Reset
    }
}

/// Colours of SGR parameters 90-97, by offset.
pub open spec fn bright_color(n: u16) -> CellColor {
    if n == 0 {
        CellColor::DarkGray
    } else if n == 1 {
        CellColor::LightRed
    } else if n == 2 {
        CellColor::LightGreen
    } else if n == 3 {
        CellColor::LightYellow
    } else if n == 4 {
        CellColor::LightBlue
    } else if n == 5 {
        CellColor::LightMagenta
    } else if n == 6 {
        CellColor::LightCyan
    } else if n == 7 {
        CellColor::White
    } else {
        CellColor::Reset
    }
}

fn standard_color_of(n: u16) -> (c: CellColor)
    ensures
        c == standard_color(n),
{
    match n {
        0 => CellColor::Black,
        1 => CellColor::Red,
        2 => CellColor::Green,
        3 => CellColor::Yellow,
        4 => CellColor::Blue,
        5 => CellColor::Magenta,
        6 => CellColor::Cyan,
        7 => CellColor::Gray,
        _ => CellColor::Reset,
    }
}

fn bright_color_of(n: u16) -> (c: CellColor)
    ensures
        c == bright_color(n),
{
    match n {
        0 => CellColor::DarkGray,
        1 => CellColor::LightRed,
        2 => CellColor::LightGreen,
        3 => CellColor::LightYellow,
        4 => CellColor::LightBlue,
        5 => CellColor::LightMagenta,
        6 => CellColor::LightCyan,
        7 => CellColor::White,
        _ => CellColor::Reset,
    }
}

// ---------------------------------------------------------------------------
// SGR ("select graphic rendition") parameters.
//
// A CSI `m` sequence carries parameter groups separated by `;`; a group may
// hold sub-parameters separated by `:`. Extended colours come either inside
// one group (`38:5:N`, `38:2:R:G:B`) or spread over the following groups
// (`38;5;N`, `38;2;R;G;B`), which they then consume.
// ---------------------------------------------------------------------------

/// Whether every group holds at least its leading parameter.
pub open spec fn groups_ok(g: Seq<Seq<u16>>) -> bool {
    forall|i: int| 0 <= i < g.len() ==> #[trigger] g[i].len() >= 1
}

/// The colour an extended-colour group sequence (starting with 38 or 48)
/// selects, if it selects one.
pub open spec fn extended_color(g: Seq<Seq<u16>>) -> Option<CellColor> {
    let sub = g[0];
    if sub.len() >= 3 && sub[1] == 5 {
        Some(CellColor::Indexed(sub[2] as u8))
    } else if sub.len() >= 5 && sub[1] == 2 {
        Some(CellColor::Rgb(sub[2] as u8, sub[3] as u8, sub[4] as u8))
    } else if g.len() >= 2 && g[1][0] == 5 {
        if g.len() >= 3 {
            Some(CellColor::Indexed(g[2][0] as u8))
        } else {
            None
        }
    } else if g.len() >= 2 && g[1][0] == 2 {
        if g.len() >= 5 {
            Some(CellColor::Rgb(g[2][0] as u8, g[3][0] as u8, g[4][0] as u8))
        } else {
            None
        }
    } else {
        None
    }
}

/// How many groups an extended-colour parameter consumes, itself included.
pub open spec fn extended_used(g: Seq<Seq<u16>>) -> nat {
    let sub = g[0];
    if sub.len() >= 3 && sub[1] == 5 {
        1
    } else if sub.len() >= 5 && sub[1] == 2 {
        1
    } else if g.len() < 2 {
        1
    } else if g[1][0] == 5 {
        if g.len() >= 3 {
            3
        } else {
            2
        }
    } else if g[1][0] == 2 {
        if g.len() >= 5 {
            5
        } else {
            g.len()
        }
    } else {
        2
    }
}

/// How many groups the first parameter consumes.
pub open spec fn sgr_used(g: Seq<Seq<u16>>) -> nat {
    let p = g[0][0];
    if p == 38 || p == 48 {
        extended_used(g)
    } else {
        1
    }
}

/// The style after the first parameter of `g`.
pub open spec fn sgr_first(s: CellStyle, g: Seq<Seq<u16>>) -> CellStyle {
    let p = g[0][0];
    if p == 0 {
        default_style()
    } else if p == 1 {
        with_modifier(s, MOD_BOLD)
    } else if p == 3 {
        with_modifier(s, MOD_ITALIC)
    } else if p == 4 {
        with_modifier(s, MOD_UNDERLINED)
    } else if p == 22 {
        without_modifier(s, MOD_BOLD)
    } else if p == 23 {
        without_modifier(s, MOD_ITALIC)
    } else if p == 24 {
        without_modifier(s, MOD_UNDERLINED)
    } else if 30 <= p <= 37 {
        CellStyle { fg: Some(standard_color((p - 30) as u16)), ..s }
    } else if p == 38 {
        match extended_color(g) {
            Some(c) => CellStyle { fg: Some(c), ..s },
            None => s,
        }
    } else if p == 39 {
        CellStyle { fg: Some(CellColor::Reset), ..s }
    } else if 40 <= p <= 47 {
        CellStyle { bg: Some(standard_color((p - 40) as u16)), ..s }
    } else if p == 48 {
        match extended_color(g) {
            Some(c) => CellStyle { bg: Some(c), ..s },
            None => s,
        }
    } else if p == 49 {
        CellStyle { bg: Some(CellColor::Reset), ..s }
    } else if 90 <= p <= 97 {
        CellStyle { fg: Some(bright_color((p - 90) as u16)), ..s }
    } else {
        s
    }
}

pub proof fn lemma_sgr_used_bounds(g: Seq<Seq<u16>>)
    requires
        g.len() >= 1,
    ensures
        1 <= sgr_used(g) <= g.len(),
{
}

/// A lone parameter that is not an extended colour is applied by itself.
proof fn lemma_sgr_single(s: CellStyle, p: u16)
    requires
        p != 38 && p != 48,
    ensures
        sgr(s, seq![seq![p]]) == sgr_first(s, seq![seq![p]]),
{
    let g = seq![seq![p]];
    assert(sgr_used(g) == 1);
    assert(g.subrange(1, 1) =~= Seq::<Seq<u16>>::empty());
    assert(sgr(sgr_first(s, g), Seq::<Seq<u16>>::empty()) == sgr_first(s, g));
}

/// A law of SGR colours: parameters 30-37 set the foreground and 40-47 the
/// background to the ANSI colours in their fixed order (black, red, green,
/// yellow, blue, magenta, cyan, gray), and 90-97 the foreground to the
/// bright ones (dark gray, light red, light green, light yellow, light
/// blue, light magenta, light cyan, white); nothing else of the style
/// changes.
pub proof fn lemma_sgr_standard_colors(s: CellStyle)
    ensures
        sgr(s, seq![seq![30u16]]) == (CellStyle { fg: Some(CellColor::Black), ..s }),
        sgr(s, seq![seq![31u16]]) == (CellStyle { fg: Some(CellColor::Red), ..s }),
        sgr(s, seq![seq![32u16]]) == (CellStyle { fg: Some(CellColor::Green), ..s }),
        sgr(s, seq![seq![33u16]]) == (CellStyle { fg: Some(CellColor::Yellow), ..s }),
        sgr(s, seq![seq![34u16]]) == (CellStyle { fg: Some(CellColor::Blue), ..s }),
        sgr(s, seq![seq![35u16]]) == (CellStyle { fg: Some(CellColor::Magenta), ..s }),
        sgr(s, seq![seq![36u16]]) == (CellStyle { fg: Some(CellColor::Cyan), ..s }),
        sgr(s, seq![seq![37u16]]) == (CellStyle { fg: Some(CellColor::Gray), ..s }),
        sgr(s, seq![seq![40u16]]) == (CellStyle { bg: Some(CellColor::Black), ..s }),
        sgr(s, seq![seq![41u16]]) == (CellStyle { bg: Some(CellColor::Red), ..s }),
        sgr(s, seq![seq![42u16]]) == (CellStyle { bg: Some(CellColor::Green), ..s }),
        sgr(s, seq![seq![43u16]]) == (CellStyle { bg: Some(CellColor::Yellow), ..s }),
        sgr(s, seq![seq![44u16]]) == (CellStyle { bg: Some(CellColor::Blue), ..s }),
        sgr(s, seq![seq![45u16]]) == (CellStyle { bg: Some(CellColor::Magenta), ..s }),
        sgr(s, seq![seq![46u16]]) == (CellStyle { bg: Some(CellColor::Cyan), ..s }),
        sgr(s, seq![seq![47u16]]) == (CellStyle { bg: Some(CellColor::Gray), ..s }),
        sgr(s, seq![seq![90u16]]) == (CellStyle { fg: Some(CellColor::DarkGray), ..s }),
        sgr(s, seq![seq![91u16]]) == (CellStyle { fg: Some(CellColor::LightRed), ..s }),
        sgr(s, seq![seq![92u16]]) == (CellStyle { fg: Some(CellColor::LightGreen), ..s }),
        sgr(s, seq![seq![93u16]]) == (CellStyle { fg: Some(CellColor::LightYellow), ..s }),
        sgr(s, seq![seq![94u16]]) == (CellStyle { fg: Some(CellColor::LightBlue), ..s }),
        sgr(s, seq![seq![95u16]]) == (CellStyle { fg: Some(CellColor::LightMagenta), ..s }),
        sgr(s, seq![seq![96u16]]) == (CellStyle { fg: Some(CellColor::LightCyan), ..s }),
        sgr(s, seq![seq![97u16]]) == (CellStyle { fg: Some(CellColor::White), ..s }),
{
    lemma_sgr_single(s, 30u16);
    lemma_sgr_single(s, 31u16);
    lemma_sgr_single(s, 32u16);
    lemma_sgr_single(s, 33u16);
    lemma_sgr_single(s, 34u16);
    lemma_sgr_single(s, 35u16);
    lemma_sgr_single(s, 36u16);
    lemma_sgr_single(s, 37u16);
    lemma_sgr_single(s, 40u16);
    lemma_sgr_single(s, 41u16);
    lemma_sgr_single(s, 42u16);
    lemma_sgr_single(s, 43u16);
    lemma_sgr_single(s, 44u16);
    lemma_sgr_single(s, 45u16);
    lemma_sgr_single(s, 46u16);
    lemma_sgr_single(s, 47u16);
    lemma_sgr_single(s, 90u16);
    lemma_sgr_single(s, 91u16);
    lemma_sgr_single(s, 92u16);
    lemma_sgr_single(s, 93u16);
    lemma_sgr_single(s, 94u16);
    lemma_sgr_single(s, 95u16);
    lemma_sgr_single(s, 96u16);
    lemma_sgr_single(s, 97u16);
}

/// The style after every parameter group of `g`, applied in order.
pub open spec fn sgr(s: CellStyle, g: Seq<Seq<u16>>) -> CellStyle
    decreases g.len(),
{
    if g.len() == 0 {
        s
    } else {
        proof {
            lemma_sgr_used_bounds(g);
        }
        sgr(sgr_first(s, g), g.subrange(sgr_used(g) as int, g.len() as int))
    }
}

/// Applies the first parameter of `groups[i..]`.
fn sgr_step(s: CellStyle, groups: &Vec<Vec<u16>>, i: usize) -> (r: (CellStyle, usize))
    requires
        i < groups.len(),
        groups_ok(groups@.map_values(|v: Vec<u16>| v@)),
    ensures
        ({
            let g = groups@.map_values(|v: Vec<u16>| v@).subrange(i as int, groups.len() as int);
            r.0 == sgr_first(s, g) && r.1 == i + sgr_used(g)
        }),
{
    let ghost gv = groups@.map_values(|v: Vec<u16>| v@);
    let ghost g = gv.subrange(i as int, groups.len() as int);
    let n = groups.len();
    let sub = &groups[i];
    assert(g[0] == sub@);
    assert(gv[i as int].len() >= 1);
    let p = sub[0];
    if p == 0 {
        (CellStyle::new(), i + 1)
    } else if p == 1 {
        (s.add(MOD_BOLD), i + 1)
    } else if p == 3 {
        (s.add(MOD_ITALIC), i + 1)
    } else if p == 4 {
        (s.add(MOD_UNDERLINED), i + 1)
    } else if p == 22 {
        (s.remove(MOD_BOLD), i + 1)
    } else if p == 23 {
        (s.remove(MOD_ITALIC), i + 1)
    } else if p == 24 {
        (s.remove(MOD_UNDERLINED), i + 1)
    } else if 30 <= p && p <= 37 {
        (CellStyle { fg: Some(standard_color_of(p - 30)), ..s }, i + 1)
    } else if p == 38 || p == 48 {
        let (c, used) = extended(groups, i);
        let r = match c {
            Some(c) => {
                if p == 38 {
                    CellStyle { fg: Some(c), ..s }
                } else {
                    CellStyle { bg: Some(c), ..s }
                }
            },
            None => s,
        };
        (r, i + used)
    } else if p == 39 {
        (CellStyle { fg: Some(CellColor::Reset), ..s }, i + 1)
    } else if 40 <= p && p <= 47 {
        (CellStyle { bg: Some(standard_color_of(p - 40)), ..s }, i + 1)
    } else if p == 49 {
        (CellStyle { bg: Some(CellColor::Reset), ..s }, i + 1)
    } else if 90 <= p && p <= 97 {
        (CellStyle { fg: Some(bright_color_of(p - 90)), ..s }, i + 1)
    } else {
        (s, i + 1)
    }
}

/// The colour and the number of groups of an extended-colour parameter at
/// `groups[i]`.
fn extended(groups: &Vec<Vec<u16>>, i: usize) -> (r: (Option<CellColor>, usize))
    requires
        i < groups.len(),
        groups_ok(groups@.map_values(|v: Vec<u16>| v@)),
    ensures
        ({
            let g = groups@.map_values(|v: Vec<u16>| v@).subrange(i as int, groups.len() as int);
            r.0 == extended_color(g) && r.1 == extended_used(g)
        }),
{
    let ghost gv = groups@.map_values(|v: Vec<u16>| v@);
    let ghost g = gv.subrange(i as int, groups.len() as int);
    let n = groups.len();
    let sub = &groups[i];
    assert(g[0] == sub@);
    if sub.len() >= 3 && sub[1] == 5 {
        return (Some(CellColor::Indexed(sub[2] as u8)), 1);
    }
    if sub.len() >= 5 && sub[1] == 2 {
        return (Some(CellColor::Rgb(sub[2] as u8, sub[3] as u8, sub[4] as u8)), 1);
    }
    if n - i < 2 {
        return (None, 1);
    }
    assert(g[1] == groups[i + 1]@);
    assert(gv[i + 1].len() >= 1);
    let mode = groups[i + 1][0];
    if mode == 5 {
        if n - i >= 3 {
            assert(g[2] == groups[i + 2]@);
            assert(gv[i + 2].len() >= 1);
            (Some(CellColor::Indexed(groups[i + 2][0] as u8)), 3)
        } else {
            (None, 2)
        }
    } else if mode == 2 {
        if n - i >= 5 {
            assert(g[2] == groups[i + 2]@);
            assert(g[3] == groups[i + 3]@);
            assert(g[4] == groups[i + 4]@);
            assert(gv[i + 2].len() >= 1);
            assert(gv[i + 3].len() >= 1);
            assert(gv[i + 4].len() >= 1);
            (
                Some(
                    CellColor::Rgb(
                        groups[i + 2][0] as u8,
                        groups[i + 3][0] as u8,
                        groups[i + 4][0] as u8,
                    ),
                ),
                5,
            )
        } else {
            (None, n - i)
        }
    } else {
        (None, 2)
    }
}

/// Applies the SGR parameter groups of one CSI `m` sequence to a style.
pub fn apply_sgr(style: CellStyle, groups: &Vec<Vec<u16>>) -> (s: CellStyle)
    requires
        groups_ok(groups@.map_values(|v: Vec<u16>| v@)),
    ensures
        s == sgr(style, groups@.map_values(|v: Vec<u16>| v@)),
{
    let ghost gv = groups@.map_values(|v: Vec<u16>| v@);
    let mut s = style;
    let mut i: usize = 0;
    assert(gv.subrange(0, gv.len() as int) =~= gv);
    while i < groups.len()
        invariant
            i <= groups.len(),
            gv == groups@.map_values(|v: Vec<u16>| v@),
            groups_ok(gv),
            sgr(s, gv.subrange(i as int, gv.len() as int)) == sgr(style, gv),
        decreases groups.len() - i,
    {
        let ghost g = gv.subrange(i as int, gv.len() as int);
        let (s2, j) = sgr_step(s, groups, i);
        proof {
            lemma_sgr_used_bounds(g);
            assert(g.subrange(sgr_used(g) as int, g.len() as int) =~= gv.subrange(
                j as int,
                gv.len() as int,
            ));
        }
        s = s2;
        i = j;
    }
    s
}

// ---------------------------------------------------------------------------
// Lines and actions.
// ---------------------------------------------------------------------------

/// One character cell.
#[derive(Debug, Clone, Copy, PartialEq, Eq, Structural)]
pub struct StyledChar {
    pub ch: char,
    pub style: CellStyle,
}

/// A line of styled cells.
#[derive(Debug, Clone)]
pub struct TerminalLine {
    pub chars: Vec<StyledChar>,
}

/// The characters of a line, without their styles.
pub open spec fn line_text(cells: Seq<StyledChar>) -> Seq<char> {
    cells.map_values(|c: StyledChar| c.ch)
}

impl TerminalLine {
    pub fn new() -> (l: TerminalLine)
        ensures
            l.chars@ == Seq::<StyledChar>::empty(),
    {
        TerminalLine { chars: Vec::new() }
    }

    /// The text of the line.
    pub fn plain_text(&self) -> (s: String)
        ensures
            s@ == line_text(self.chars@),
    {
        let mut s = String::new();
        let mut i: usize = 0;
        while i < self.chars.len()
            invariant
                i <= self.chars.len(),
                s@ == line_text(self.chars@.take(i as int)),
            decreases self.chars.len() - i,
        {
            crate::text::push_char(&mut s, self.chars[i].ch);
            assert(line_text(self.chars@.take(i + 1)) =~= line_text(self.chars@.take(i as int)).push(
                self.chars@[i as int].ch,
            ));
            i = i + 1;
        }
        assert(self.chars@.take(self.chars.len() as int) =~= self.chars@);
        s
    }
}

impl Default for TerminalLine {
    fn default() -> (l: TerminalLine)
        ensures
            l.chars@ == Seq::<StyledChar>::empty(),
    {
        TerminalLine::new()
    }
}

/// What the parser reports, as an edit of the scrollback.
#[derive(Debug, Clone, Copy, PartialEq, Eq, Structural)]
pub enum TerminalAction {
    Print(char, CellStyle),
    Newline,
    CarriageReturn,
    Tab,
}

/// Up to `count` items of `s` from index `offset` on.
pub open spec fn window<T>(s: Seq<T>, offset: int, count: int) -> Seq<T> {
    if offset >= s.len() {
        Seq::empty()
    } else if offset + count > s.len() {
        s.subrange(offset, s.len() as int)
    } else {
        s.subrange(offset, offset + count)
    }
}

/// A blank cell.
pub open spec fn blank() -> StyledChar {
    StyledChar { ch: ' ', style: default_style() }
}

/// The line with `c` written at column `p`, blanks filling any gap.
pub open spec fn put_at(line: Seq<StyledChar>, p: nat, c: StyledChar) -> Seq<StyledChar> {
    if p < line.len() {
        line.update(p as int, c)
    } else {
        line + Seq::new((p - line.len()) as nat, |i: int| blank()) + seq![c]
    }
}

/// The line with `k` blanks written from column `p` on, each overwriting
/// the cell there or, past the end, appended.
pub open spec fn blanks_from(line: Seq<StyledChar>, p: nat, k: nat) -> Seq<StyledChar>
    decreases k,
{
    if k == 0 {
        line
    } else {
        let l2 = if p < line.len() {
            line.update(p as int, blank())
        } else {
            line.push(blank())
        };
        blanks_from(l2, p + 1, (k - 1) as nat)
    }
}

/// How far a tab at column `col` moves: to the next multiple of eight.
pub open spec fn tab_width(col: nat) -> nat {
    (8 - col % 8) as nat
}

// ---------------------------------------------------------------------------
// The scrollback.
// ---------------------------------------------------------------------------

/// The scrollback as plain values.
pub ghost struct ScrollView {
    pub lines: Seq<Seq<StyledChar>>,
    pub current: Seq<StyledChar>,
    pub max_lines: nat,
    pub cursor: nat,
}

/// The completed lines after `line` is appended, the oldest dropped past
/// the limit.
pub open spec fn push_line(lines: Seq<Seq<StyledChar>>, line: Seq<StyledChar>, max: nat) -> Seq<
    Seq<StyledChar>,
> {
    if lines.len() + 1 > max {
        lines.push(line).drop_first()
    } else {
        lines.push(line)
    }
}

/// The scrollback after one action.
pub open spec fn apply_action(v: ScrollView, a: TerminalAction) -> ScrollView {
    match a {
        TerminalAction::Print(ch, style) => ScrollView {
            current: put_at(v.current, v.cursor, StyledChar { ch, style }),
            cursor: v.cursor + 1,
            ..v
        },
        TerminalAction::Newline => ScrollView {
            lines: push_line(v.lines, v.current, v.max_lines),
            current: Seq::empty(),
            cursor: 0,
            ..v
        },
        TerminalAction::CarriageReturn => ScrollView { cursor: 0, ..v },
        TerminalAction::Tab => ScrollView {
            current: blanks_from(v.current, v.cursor, tab_width(v.cursor)),
            cursor: v.cursor + tab_width(v.cursor),
            ..v
        },
    }
}

/// The scrollback after every action of `acts`, in order.
pub open spec fn apply_actions(v: ScrollView, acts: Seq<TerminalAction>) -> ScrollView
    decreases acts.len(),
{
    if acts.len() == 0 {
        v
    } else {
        apply_action(apply_actions(v, acts.drop_last()), acts.last())
    }
}

/// What a scrollback keeps: no more completed lines than its limit, and the
/// cursor within or just past the current line.
pub open spec fn scroll_ok(v: ScrollView) -> bool {
    v.lines.len() <= v.max_lines && v.cursor <= v.current.len()
}

pub proof fn lemma_action_keeps_ok(v: ScrollView, a: TerminalAction)
    requires
        scroll_ok(v),
    ensures
        scroll_ok(apply_action(v, a)),
{
    match a {
        TerminalAction::Tab => {
            lemma_blanks_len(v.current, v.cursor, tab_width(v.cursor));
        },
        _ => {},
    }
}

pub proof fn lemma_blanks_len(line: Seq<StyledChar>, p: nat, k: nat)
    requires
        p <= line.len(),
    ensures
        blanks_from(line, p, k).len() == if p + k > line.len() {
            (p + k) as int
        } else {
            line.len() as int
        },
    decreases k,
{
    if k > 0 {
        let l2 = if p < line.len() {
            line.update(p as int, blank())
        } else {
            line.push(blank())
        };
        lemma_blanks_len(l2, p + 1, (k - 1) as nat);
    }
}

/// A law of the scrollback: whatever actions come, it never holds more
/// completed lines than its limit, and its cursor stays within reach of
/// the current line.
pub proof fn lemma_actions_keep_ok(v: ScrollView, acts: Seq<TerminalAction>)
    requires
        scroll_ok(v),
    ensures
        scroll_ok(apply_actions(v, acts)),
        apply_actions(v, acts).max_lines == v.max_lines,
    decreases acts.len(),
{
    if acts.len() > 0 {
        lemma_actions_keep_ok(v, acts.drop_last());
        lemma_action_keeps_ok(apply_actions(v, acts.drop_last()), acts.last());
    }
}

#[verifier::external_type_specification]
#[verifier::external_body]
pub struct ExVteParser<const N: usize>(vte::Parser<N>);

#[verifier::external_type_specification]
#[verifier::external_body]
pub struct ExVteParams(vte::Params);

/// What the parameters of a CSI sequence hold: its parameter groups, each
/// a parameter followed by its sub-parameters.
pub uninterp spec fn vte_params(p: vte::Params) -> Seq<Seq<u16>>;

/// A call vte makes into a performer that this crate acts on: a printable
/// character, a control byte, or a complete CSI sequence with its
/// parameter groups and final character. (The other callbacks of
/// `vte::Perform` keep their default bodies, which do nothing.)
pub ghost enum VtEvent {
    Print(char),
    Execute(u8),
    Csi(Seq<Seq<u16>>, char),
}

/// The calls a parser fresh from `vte::Parser::new` makes, in order, while
/// it is fed `fed` one byte after another.
pub uninterp spec fn vt_events(fed: Seq<u8>) -> Seq<VtEvent>;

/// A vte parser together with the bytes it has been fed since it was made.
pub struct VtParser {
    parser: vte::Parser,
    fed: Ghost<Seq<u8>>,
}

impl VtParser {
    /// The bytes this parser has been fed since it was made.
    pub closed spec fn fed(&self) -> Seq<u8> {
        self.fed@
    }
}

/// `vte::Parser::new`: a parser in its ground state, fed nothing yet, so
/// it has made no calls.
#[verifier::external_body]
fn new_parser() -> (p: VtParser)
    ensures
        p.fed() == Seq::<u8>::empty(),
        vt_events(p.fed()) == Seq::<VtEvent>::empty(),
{
    VtParser { parser: vte::Parser::new(), fed: Ghost(Seq::empty()) }
}

/// `vte::Parser::advance`: feeds one byte through the escape-sequence state
/// machine, which calls the performer back as sequences complete. vte's
/// state depends only on the bytes fed, so the calls made for this byte
/// are those `vt_events` lists for the bytes fed so far beyond the ones it
/// lists for the bytes fed before (calls already made are never taken
/// back). The performer's `print`, `execute` and `csi_dispatch` run for
/// each of them, in order.
#[verifier::external_body]
fn advance(p: &mut VtParser, performer: &mut TerminalPerformer, byte: u8)
    ensures
        final(p).fed() == old(p).fed().push(byte),
        vt_events(old(p).fed()).is_prefix_of(vt_events(final(p).fed())),
        perf_view(*final(performer)) == perform_all(
            perf_view(*old(performer)),
            vt_events(final(p).fed()).skip(vt_events(old(p).fed()).len() as int),
        ),
{
    p.parser.advance(performer, byte);
    p.fed = Ghost(p.fed@.push(byte));
}

/// `vte::Params::iter`: the parameter groups of a CSI sequence, each with
/// its sub-parameters. The iterator hands out each group as the slice of
/// the parameter and its sub-parameters, so no group is empty.
#[verifier::external_body]
fn param_groups(params: &vte::Params) -> (g: Vec<Vec<u16>>)
    ensures
        g@.map_values(|v: Vec<u16>| v@) == vte_params(*params),
        groups_ok(g@.map_values(|v: Vec<u16>| v@)),
{
    params.iter().map(|p| p.to_vec()).collect()
}

/// The actions a control byte gives: line feed, carriage return and tab;
/// other control bytes give none.
pub open spec fn execute_actions(byte: u8) -> Seq<TerminalAction> {
    if byte == 0x0a {
        seq![TerminalAction::Newline]
    } else if byte == 0x0d {
        seq![TerminalAction::CarriageReturn]
    } else if byte == 0x09 {
        seq![TerminalAction::Tab]
    } else {
        Seq::empty()
    }
}

/// A performer as plain values: the actions recorded and the current style.
pub open spec fn perf_view(p: TerminalPerformer) -> (Seq<TerminalAction>, CellStyle) {
    (p.actions@, p.current_style)
}

/// What one call does to a performer's actions and style.
pub open spec fn perform(st: (Seq<TerminalAction>, CellStyle), e: VtEvent) -> (
    Seq<TerminalAction>,
    CellStyle,
) {
    match e {
        VtEvent::Print(c) => (st.0.push(TerminalAction::Print(c, st.1)), st.1),
        VtEvent::Execute(b) => (st.0 + execute_actions(b), st.1),
        VtEvent::Csi(g, a) => (st.0, if a == 'm' {
            sgr(st.1, g)
        } else {
            st.1
        }),
    }
}

/// What calls do to a performer, in order.
pub open spec fn perform_all(st: (Seq<TerminalAction>, CellStyle), es: Seq<VtEvent>) -> (
    Seq<TerminalAction>,
    CellStyle,
)
    decreases es.len(),
{
    if es.len() == 0 {
        st
    } else {
        perform(perform_all(st, es.drop_last()), es.last())
    }
}

/// Collects what the parser reports, with the style that SGR sequences set.
pub struct TerminalPerformer {
    pub actions: Vec<TerminalAction>,
    pub current_style: CellStyle,
}

impl TerminalPerformer {
    pub fn new() -> (p: TerminalPerformer)
        ensures
            p.actions@ == Seq::<TerminalAction>::empty(),
            p.current_style == default_style(),
    {
        TerminalPerformer { actions: Vec::new(), current_style: CellStyle::new() }
    }

    /// Records a printable character in the current style.
    pub fn on_print(&mut self, c: char)
        ensures
            final(self).actions@ == old(self).actions@.push(
                TerminalAction::Print(c, old(self).current_style),
            ),
            final(self).current_style == old(self).current_style,
    {
        let a = TerminalAction::Print(c, self.current_style);
        self.actions.push(a);
    }

    /// Records line feed, carriage return and tab; other control bytes are
    /// ignored.
    pub fn on_execute(&mut self, byte: u8)
        ensures
            final(self).actions@ == if byte == 0x0a {
                old(self).actions@.push(TerminalAction::Newline)
            } else if byte == 0x0d {
                old(self).actions@.push(TerminalAction::CarriageReturn)
            } else if byte == 0x09 {
                old(self).actions@.push(TerminalAction::Tab)
            } else {
                old(self).actions@
            },
            final(self).current_style == old(self).current_style,
    {
        if byte == 0x0a {
            self.actions.push(TerminalAction::Newline);
        } else if byte == 0x0d {
            self.actions.push(TerminalAction::CarriageReturn);
        } else if byte == 0x09 {
            self.actions.push(TerminalAction::Tab);
        }
    }

    /// Applies an SGR sequence (CSI final byte `m`); other CSI sequences are
    /// ignored.
    pub fn on_csi(&mut self, groups: &Vec<Vec<u16>>, action: char)
        requires
            groups_ok(groups@.map_values(|v: Vec<u16>| v@)),
        ensures
            final(self).actions@ == old(self).actions@,
            final(self).current_style == if action == 'm' {
                sgr(old(self).current_style, groups@.map_values(|v: Vec<u16>| v@))
            } else {
                old(self).current_style
            },
    {
        if action == 'm' {
            self.current_style = apply_sgr(self.current_style, groups);
        }
    }
}

impl vte::Perform for TerminalPerformer {
    fn print(&mut self, c: char)
        ensures
            perf_view(*final(self)) == perform(perf_view(*old(self)), VtEvent::Print(c)),
    {
        self.on_print(c);
    }

    fn execute(&mut self, byte: u8)
        ensures
            perf_view(*final(self)) == perform(perf_view(*old(self)), VtEvent::Execute(byte)),
    {
        self.on_execute(byte);
        assert(self.actions@ =~= old(self).actions@ + execute_actions(byte));
    }

    fn csi_dispatch(&mut self, params: &vte::Params, _intermediates: &[u8], _ignore: bool, action: char)
        ensures
            perf_view(*final(self)) == perform(
                perf_view(*old(self)),
                VtEvent::Csi(vte_params(*params), action),
            ),
    {
        if action == 'm' {
            let groups = param_groups(params);
            self.on_csi(&groups, action);
        }
    }
}

/// Terminal output: completed lines (at most `max_lines`, oldest dropped
/// first), the line being written, and a cursor column.
pub struct Scrollback {
    lines: VecDeque<TerminalLine>,
    current_line: TerminalLine,
    max_lines: usize,
    cursor_col: usize,
    parser: VtParser,
    performer: TerminalPerformer,
}

/// The style a performer has after the calls a fresh parser makes for
/// `fed`.
pub open spec fn style_after(fed: Seq<u8>) -> CellStyle {
    perform_all((Seq::empty(), default_style()), vt_events(fed)).1
}

/// The actions that feeding `more` after `fed` gives: the calls the parser
/// makes for the new bytes, performed from the style that `fed` left.
pub open spec fn new_actions(fed: Seq<u8>, more: Seq<u8>) -> Seq<TerminalAction> {
    perform_all(
        (Seq::empty(), style_after(fed)),
        vt_events(fed + more).skip(vt_events(fed).len() as int),
    ).0
}

proof fn lemma_perform_all_append(
    st: (Seq<TerminalAction>, CellStyle),
    x: Seq<VtEvent>,
    y: Seq<VtEvent>,
)
    ensures
        perform_all(st, x + y) == perform_all(perform_all(st, x), y),
    decreases y.len(),
{
    if y.len() == 0 {
        assert(x + y =~= x);
    } else {
        assert((x + y).drop_last() =~= x + y.drop_last());
        assert((x + y).last() == y.last());
        lemma_perform_all_append(st, x, y.drop_last());
    }
}

proof fn lemma_perform_all_acc(a: Seq<TerminalAction>, s: CellStyle, x: Seq<VtEvent>)
    ensures
        perform_all((a, s), x).0 == a + perform_all((Seq::empty(), s), x).0,
        perform_all((a, s), x).1 == perform_all((Seq::empty(), s), x).1,
    decreases x.len(),
{
    if x.len() == 0 {
        assert(a + Seq::<TerminalAction>::empty() =~= a);
    } else {
        lemma_perform_all_acc(a, s, x.drop_last());
        let p = perform_all((Seq::<TerminalAction>::empty(), s), x.drop_last());
        match x.last() {
            VtEvent::Print(c) => {
                assert((a + p.0).push(TerminalAction::Print(c, p.1)) =~= a + p.0.push(
                    TerminalAction::Print(c, p.1),
                ));
            },
            VtEvent::Execute(b) => {
                assert((a + p.0) + execute_actions(b) =~= a + (p.0 + execute_actions(b)));
            },
            VtEvent::Csi(_, _) => {},
        }
    }
}

/// Events `e0` are a prefix of `e1`, and `e1` of `e2`: what `e2` adds to
/// `e0` is what `e1` adds, then what `e2` adds to `e1`.
proof fn lemma_skip_prefix(e0: Seq<VtEvent>, e1: Seq<VtEvent>, e2: Seq<VtEvent>)
    requires
        e0.is_prefix_of(e1),
        e1.is_prefix_of(e2),
    ensures
        e2.skip(e0.len() as int) == e1.skip(e0.len() as int) + e2.skip(e1.len() as int),
        e0.is_prefix_of(e2),
        e1 == e0 + e1.skip(e0.len() as int),
{
    assert(e2.skip(e0.len() as int) =~= e1.skip(e0.len() as int) + e2.skip(e1.len() as int));
    assert(e1 =~= e0 + e1.skip(e0.len() as int));
}

/// The style after `fed + more` is the one the new calls leave, performed
/// from the style after `fed`.
proof fn lemma_style_after(fed: Seq<u8>, more: Seq<u8>)
    requires
        vt_events(fed).is_prefix_of(vt_events(fed + more)),
    ensures
        style_after(fed + more) == perform_all(
            (Seq::empty(), style_after(fed)),
            vt_events(fed + more).skip(vt_events(fed).len() as int),
        ).1,
{
    let e0 = vt_events(fed);
    let e1 = vt_events(fed + more);
    let rest = e1.skip(e0.len() as int);
    assert(e1 =~= e0 + rest);
    lemma_perform_all_append((Seq::empty(), default_style()), e0, rest);
    let mid = perform_all((Seq::<TerminalAction>::empty(), default_style()), e0);
    lemma_perform_all_acc(mid.0, mid.1, rest);
}

/// A law of the scrollback: feeding bytes in two pieces gives the same
/// result as feeding them at once, escape and UTF-8 sequences split across
/// the pieces included. (`feed` guarantees the prefix facts this asks for:
/// a parser never takes back a call it made.)
pub proof fn lemma_feed_in_two(v: ScrollView, fed: Seq<u8>, a: Seq<u8>, b: Seq<u8>)
    requires
        vt_events(fed).is_prefix_of(vt_events(fed + a)),
        vt_events(fed + a).is_prefix_of(vt_events(fed + a + b)),
    ensures
        apply_actions(apply_actions(v, new_actions(fed, a)), new_actions(fed + a, b))
            == apply_actions(v, new_actions(fed, a + b)),
{
    let e0 = vt_events(fed);
    let e1 = vt_events(fed + a);
    let e2 = vt_events(fed + a + b);
    assert(fed + (a + b) =~= fed + a + b);
    lemma_skip_prefix(e0, e1, e2);
    let x = e1.skip(e0.len() as int);
    let y = e2.skip(e1.len() as int);
    let s0 = style_after(fed);
    lemma_perform_all_append((Seq::empty(), s0), x, y);
    let px = perform_all((Seq::<TerminalAction>::empty(), s0), x);
    lemma_perform_all_acc(px.0, px.1, y);
    lemma_style_after(fed, a);
    assert(new_actions(fed, a + b) == new_actions(fed, a) + new_actions(fed + a, b));
    lemma_apply_actions_append(v, new_actions(fed, a), new_actions(fed + a, b));
}

proof fn lemma_apply_actions_append(v: ScrollView, x: Seq<TerminalAction>, y: Seq<TerminalAction>)
    ensures
        apply_actions(v, x + y) == apply_actions(apply_actions(v, x), y),
    decreases y.len(),
{
    if y.len() == 0 {
        assert(x + y =~= x);
    } else {
        assert((x + y).drop_last() =~= x + y.drop_last());
        assert((x + y).last() == y.last());
        lemma_apply_actions_append(v, x, y.drop_last());
    }
}

pub open spec fn lines_view(lines: Seq<TerminalLine>) -> Seq<Seq<StyledChar>> {
    lines.map_values(|l: TerminalLine| l.chars@)
}

pub open spec fn borrowed_lines_view(lines: Seq<&TerminalLine>) -> Seq<Seq<StyledChar>> {
    lines.map_values(|l: &TerminalLine| l.chars@)
}

impl View for Scrollback {
    type V = ScrollView;

    closed spec fn view(&self) -> ScrollView {
        ScrollView {
            lines: lines_view(self.lines@),
            current: self.current_line.chars@,
            max_lines: self.max_lines as nat,
            cursor: self.cursor_col as nat,
        }
    }
}

impl Scrollback {
    /// Whether the scrollback keeps its limits.
    pub closed spec fn wf(&self) -> bool {
        &&& scroll_ok(self@)
        &&& self.performer.actions@ == Seq::<TerminalAction>::empty()
        &&& self.performer.current_style == style_after(self.parser.fed())
    }

    /// The bytes fed to this scrollback since it was made.
    pub closed spec fn fed(&self) -> Seq<u8> {
        self.parser.fed()
    }

    pub fn new(max_lines: usize) -> (s: Scrollback)
        ensures
            s.wf(),
            s@.lines == Seq::<Seq<StyledChar>>::empty(),
            s@.current == Seq::<StyledChar>::empty(),
            s@.max_lines == max_lines,
            s@.cursor == 0,
            s.fed() == Seq::<u8>::empty(),
    {
        let s = Scrollback {
            lines: VecDeque::new(),
            current_line: TerminalLine::new(),
            max_lines,
            cursor_col: 0,
            parser: new_parser(),
            performer: TerminalPerformer::new(),
        };
        assert(lines_view(s.lines@) =~= Seq::<Seq<StyledChar>>::empty());
        s
    }

    fn put_cell(&mut self, c: StyledChar)
        requires
            old(self).wf(),
        ensures
            final(self).wf(),
            final(self)@ == apply_action(old(self)@, TerminalAction::Print(c.ch, c.style)),
            final(self).parser == old(self).parser,
            final(self).performer == old(self).performer,
    {
        let col = self.cursor_col;
        if col < self.current_line.chars.len() {
            self.current_line.chars.set(col, c);
            assert(self.current_line.chars@ =~= put_at(old(self)@.current, old(self)@.cursor, c));
        } else {
            let ghost start = self.current_line.chars@;
            while self.current_line.chars.len() < col
                invariant
                    start.len() <= self.current_line.chars.len() <= col,
                    col == old(self).cursor_col,
                    self.cursor_col == old(self).cursor_col,
                    self.lines@ == old(self).lines@,
                    self.max_lines == old(self).max_lines,
                    self.parser == old(self).parser,
                    self.performer == old(self).performer,
                    self.current_line.chars@ == start + Seq::new(
                        (self.current_line.chars.len() - start.len()) as nat,
                        |i: int| blank(),
                    ),
                decreases col - self.current_line.chars.len(),
            {
                self.current_line.chars.push(StyledChar { ch: ' ', style: CellStyle::new() });
                assert(self.current_line.chars@ =~= start + Seq::new(
                    (self.current_line.chars.len() - start.len()) as nat,
                    |i: int| blank(),
                ));
            }
            self.current_line.chars.push(c);
            assert(self.current_line.chars@ =~= put_at(old(self)@.current, old(self)@.cursor, c));
        }
        let len = self.current_line.chars.len();
        assert(col < len);
        self.cursor_col = col + 1;
    }

    fn tab(&mut self)
        requires
            old(self).wf(),
        ensures
            final(self).wf(),
            final(self)@ == apply_action(old(self)@, TerminalAction::Tab),
            final(self).parser == old(self).parser,
            final(self).performer == old(self).performer,
    {
        let ghost v0 = self@;
        let spaces = 8 - self.cursor_col % 8;
        let mut k: usize = 0;
        while k < spaces
            invariant
                k <= spaces,
                spaces == tab_width(v0.cursor),
                self.cursor_col == v0.cursor + k,
                self.cursor_col <= self.current_line.chars.len(),
                blanks_from(self.current_line.chars@, self.cursor_col as nat, (spaces - k) as nat)
                    == blanks_from(v0.current, v0.cursor, spaces as nat),
                self.lines@ == old(self).lines@,
                self.max_lines == old(self).max_lines,
                self.parser == old(self).parser,
                self.performer == old(self).performer,
            decreases spaces - k,
        {
            let b = StyledChar { ch: ' ', style: CellStyle::new() };
            let col = self.cursor_col;
            let ghost line = self.current_line.chars@;
            if col < self.current_line.chars.len() {
                self.current_line.chars.set(col, b);
                assert(self.current_line.chars@ == line.update(col as int, blank()));
            } else {
                self.current_line.chars.push(b);
                assert(self.current_line.chars@ == line.push(blank()));
            }
            let len = self.current_line.chars.len();
            assert(col < len);
            self.cursor_col = col + 1;
            k = k + 1;
        }
    }

    fn newline(&mut self)
        requires
            old(self).wf(),
        ensures
            final(self).wf(),
            final(self)@ == apply_action(old(self)@, TerminalAction::Newline),
            final(self).parser == old(self).parser,
            final(self).performer == old(self).performer,
    {
        let mut finished = TerminalLine::new();
        std::mem::swap(&mut finished, &mut self.current_line);
        self.lines.push_back(finished);
        if self.lines.len() > self.max_lines {
            self.lines.pop_front();
        }
        self.cursor_col = 0;
        assert(lines_view(self.lines@) =~= push_line(
            old(self)@.lines,
            old(self)@.current,
            old(self)@.max_lines,
        ));
    }

    /// Applies one action.
    pub fn apply(&mut self, a: TerminalAction)
        requires
            old(self).wf(),
        ensures
            final(self).wf(),
            final(self)@ == apply_action(old(self)@, a),
            final(self).fed() == old(self).fed(),
    {
        match a {
            TerminalAction::Print(ch, style) => self.put_cell(StyledChar { ch, style }),
            TerminalAction::Newline => self.newline(),
            TerminalAction::CarriageReturn => {
                self.cursor_col = 0;
            },
            TerminalAction::Tab => self.tab(),
        }
    }

    /// Applies actions in order.
    pub fn apply_all(&mut self, actions: &Vec<TerminalAction>)
        requires
            old(self).wf(),
        ensures
            final(self).wf(),
            final(self)@ == apply_actions(old(self)@, actions@),
            final(self).fed() == old(self).fed(),
    {
        let mut i: usize = 0;
        assert(actions@.take(0) =~= Seq::<TerminalAction>::empty());
        while i < actions.len()
            invariant
                i <= actions.len(),
                self.wf(),
                self@ == apply_actions(old(self)@, actions@.take(i as int)),
                self.fed() == old(self).fed(),
            decreases actions.len() - i,
        {
            assert(actions@.take(i + 1).drop_last() =~= actions@.take(i as int));
            self.apply(actions[i]);
            i = i + 1;
        }
        assert(actions@.take(actions.len() as int) =~= actions@);
    }

    /// Feeds raw bytes from the PTY through the parser and applies what it
    /// reports: the actions the parser's calls for these bytes give, in the
    /// style the bytes fed before left. A sequence split across two feeds
    /// comes out as if fed at once (`lemma_feed_in_two`).
    pub fn feed(&mut self, bytes: &[u8])
        requires
            old(self).wf(),
        ensures
            final(self).wf(),
            final(self).fed() == old(self).fed() + bytes@,
            vt_events(old(self).fed()).is_prefix_of(vt_events(final(self).fed())),
            final(self)@ == apply_actions(old(self)@, new_actions(old(self).fed(), bytes@)),
            final(self)@.max_lines == old(self)@.max_lines,
            final(self)@.lines.len() <= final(self)@.max_lines,
    {
        let ghost f0 = self.parser.fed();
        let ghost e0 = vt_events(f0);
        let ghost s0 = self.performer.current_style;
        let mut i: usize = 0;
        assert(f0 + bytes@.take(0) =~= f0);
        assert(e0.skip(e0.len() as int) =~= Seq::<VtEvent>::empty());
        assert(e0.is_prefix_of(e0));
        while i < bytes.len()
            invariant
                i <= bytes.len(),
                self@ == old(self)@,
                f0 == old(self).parser.fed(),
                e0 == vt_events(f0),
                s0 == style_after(f0),
                self.parser.fed() == f0 + bytes@.take(i as int),
                e0.is_prefix_of(vt_events(self.parser.fed())),
                perf_view(self.performer) == perform_all(
                    (Seq::empty(), s0),
                    vt_events(self.parser.fed()).skip(e0.len() as int),
                ),
            decreases bytes.len() - i,
        {
            let ghost e1 = vt_events(self.parser.fed());
            let ghost p1 = perf_view(self.performer);
            advance(&mut self.parser, &mut self.performer, bytes[i]);
            proof {
                let e2 = vt_events(self.parser.fed());
                lemma_skip_prefix(e0, e1, e2);
                lemma_perform_all_append((Seq::empty(), s0), e1.skip(e0.len() as int), e2.skip(e1.len() as int));
                assert(f0 + bytes@.take(i + 1) =~= (f0 + bytes@.take(i as int)).push(bytes@[i as int]));
            }
            i = i + 1;
        }
        assert(bytes@.take(bytes.len() as int) =~= bytes@);
        proof {
            lemma_style_after(f0, bytes@);
        }
        let mut actions: Vec<TerminalAction> = Vec::new();
        std::mem::swap(&mut actions, &mut self.performer.actions);
        self.apply_all(&actions);
        proof {
            lemma_actions_keep_ok(old(self)@, actions@);
        }
    }

    /// Up to `count` completed lines from line `offset` on, oldest first.
    pub fn get_lines(&self, offset: usize, count: usize) -> (r: Vec<&TerminalLine>)
        ensures
            borrowed_lines_view(r@) == window(self@.lines, offset as int, count as int),
    {
        let n = self.lines.len();
        let mut r: Vec<&TerminalLine> = Vec::new();
        if offset >= n {
            assert(borrowed_lines_view(r@) =~= window(self@.lines, offset as int, count as int));
            return r;
        }
        let mut i = offset;
        let end = if count > n - offset {
            n
        } else {
            offset + count
        };
        assert(borrowed_lines_view(r@) =~= lines_view(self.lines@).subrange(offset as int, offset as int));
        while i < end
            invariant
                offset <= i <= end <= n,
                n == self.lines@.len(),
                borrowed_lines_view(r@) == lines_view(self.lines@).subrange(offset as int, i as int),
            decreases end - i,
        {
            let line: &TerminalLine = &self.lines[i];
            assert(line.chars@ == lines_view(self.lines@)[i as int]);
            let ghost before = r@;
            r.push(line);
            assert(r@ == before.push(line));
            assert(borrowed_lines_view(r@) =~= borrowed_lines_view(before).push(line.chars@));
            assert(borrowed_lines_view(r@) =~= lines_view(self.lines@).subrange(offset as int, i + 1));
            i = i + 1;
        }
        assert(borrowed_lines_view(r@) =~= window(self@.lines, offset as int, count as int));
        r
    }

    /// Total number of completed lines.
    pub fn total_lines(&self) -> (n: usize)
        ensures
            n == self@.lines.len(),
    {
        self.lines.len()
    }

    /// The line being written.
    pub fn current_line(&self) -> (l: &TerminalLine)
        ensures
            l.chars@ == self@.current,
    {
        &self.current_line
    }

    /// Clears the scrollback: no lines, an empty current line, the cursor at
    /// column zero.
    pub fn clear(&mut self)
        requires
            old(self).wf(),
        ensures
            final(self).wf(),
            final(self)@ == (ScrollView {
                lines: Seq::empty(),
                current: Seq::empty(),
                cursor: 0,
                ..old(self)@
            }),
            final(self).fed() == old(self).fed(),
    {
        self.lines.clear();
        self.current_line = TerminalLine::new();
        self.cursor_col = 0;
        assert(lines_view(self.lines@) =~= Seq::<Seq<StyledChar>>::empty());
    }
}

} // verus!
