use apprunner::vt::{
    apply_sgr, CellColor, CellStyle, Scrollback, TerminalAction, TerminalLine, MOD_BOLD,
    MOD_ITALIC, MOD_UNDERLINED,
};

fn line_text(sb: &Scrollback, i: usize) -> String {
    sb.get_lines(i, 1)[0].plain_text()
}

#[test]
fn test_plain_text_parsing() {
    let mut sb = Scrollback::new(1000);
    sb.feed(b"hello world");
    assert_eq!(sb.current_line().plain_text(), "hello world");
}

#[test]
fn test_newline_creates_new_line() {
    let mut sb = Scrollback::new(1000);
    sb.feed(b"line one\nline two");
    assert_eq!(sb.total_lines(), 1);
    assert_eq!(line_text(&sb, 0), "line one");
    assert_eq!(sb.current_line().plain_text(), "line two");
}

#[test]
fn test_carriage_return_and_overwrite() {
    let mut sb = Scrollback::new(1000);
    sb.feed(b"hello\rworld");
    assert_eq!(sb.current_line().plain_text(), "world");
}

#[test]
fn test_ansi_color_red_foreground() {
    let mut sb = Scrollback::new(1000);
    sb.feed(b"\x1b[31mhello");
    let line = sb.current_line();
    assert_eq!(line.plain_text(), "hello");
    for sc in &line.chars {
        assert_eq!(sc.style.fg, Some(CellColor::Red));
    }
}

#[test]
fn test_bold() {
    let mut sb = Scrollback::new(1000);
    sb.feed(b"\x1b[1mbold text");
    let line = sb.current_line();
    assert_eq!(line.plain_text(), "bold text");
    for sc in &line.chars {
        assert!(sc.style.has_modifier(MOD_BOLD));
    }
}

#[test]
fn test_reset() {
    let mut sb = Scrollback::new(1000);
    sb.feed(b"\x1b[1;31mcolored\x1b[0m normal");
    let line = sb.current_line();
    assert_eq!(line.plain_text(), "colored normal");

    for sc in &line.chars[..7] {
        assert_eq!(sc.style.fg, Some(CellColor::Red));
        assert!(sc.style.has_modifier(MOD_BOLD));
    }
    for sc in &line.chars[7..] {
        assert_eq!(sc.style, CellStyle::new());
    }
}

#[test]
fn test_ring_buffer_overflow() {
    let max = 5;
    let mut sb = Scrollback::new(max);
    sb.feed(b"line1\nline2\nline3\nline4\nline5\nline6\nline7");
    assert_eq!(sb.total_lines(), max);
    assert_eq!(line_text(&sb, 0), "line2");
    assert_eq!(line_text(&sb, 4), "line6");
    assert_eq!(sb.current_line().plain_text(), "line7");
}

#[test]
fn test_get_lines_with_offset_and_count() {
    let mut sb = Scrollback::new(1000);
    sb.feed(b"a\nb\nc\nd\ne\n");
    assert_eq!(sb.total_lines(), 5);

    let slice = sb.get_lines(1, 2);
    assert_eq!(slice.len(), 2);
    assert_eq!(slice[0].plain_text(), "b");
    assert_eq!(slice[1].plain_text(), "c");
}

#[test]
fn test_total_lines_count() {
    let mut sb = Scrollback::new(1000);
    sb.feed(b"a\nb\nc\n");
    assert_eq!(sb.total_lines(), 3);
}

#[test]
fn test_256_color() {
    let mut sb = Scrollback::new(1000);
    sb.feed(b"\x1b[38;5;196mred");
    let line = sb.current_line();
    assert_eq!(line.plain_text(), "red");
    for sc in &line.chars {
        assert_eq!(sc.style.fg, Some(CellColor::Indexed(196)));
    }
}

#[test]
fn test_rgb_color() {
    let mut sb = Scrollback::new(1000);
    sb.feed(b"\x1b[38;2;255;128;0morange");
    let line = sb.current_line();
    assert_eq!(line.plain_text(), "orange");
    for sc in &line.chars {
        assert_eq!(sc.style.fg, Some(CellColor::Rgb(255, 128, 0)));
    }
}

#[test]
fn test_tab_stops() {
    let mut sb = Scrollback::new(1000);
    sb.feed(b"a\tb");
    let text = sb.current_line().plain_text();
    assert_eq!(text.len(), 9);
    assert_eq!(&text[0..1], "a");
    assert_eq!(&text[1..8], "       ");
    assert_eq!(&text[8..9], "b");
}

#[test]
fn test_bright_foreground_colors() {
    let mut sb = Scrollback::new(1000);
    sb.feed(b"\x1b[91mhi");
    let line = sb.current_line();
    for sc in &line.chars {
        assert_eq!(sc.style.fg, Some(CellColor::LightRed));
    }
}

#[test]
fn test_background_color() {
    let mut sb = Scrollback::new(1000);
    sb.feed(b"\x1b[42mgreen bg");
    let line = sb.current_line();
    for sc in &line.chars {
        assert_eq!(sc.style.bg, Some(CellColor::Green));
    }
}

#[test]
fn mod_test_clear() {
    let mut sb = Scrollback::new(1000);
    sb.feed(b"some\ntext\nhere");
    sb.clear();
    assert_eq!(sb.total_lines(), 0);
    assert_eq!(sb.current_line().plain_text(), "");
}

// Further cases.

#[test]
fn sgr_colon_form_and_background_extended() {
    let style = apply_sgr(CellStyle::new(), &vec![vec![38, 5, 12], vec![48, 2, 1, 2, 3]]);
    assert_eq!(style.fg, Some(CellColor::Indexed(12)));
    assert_eq!(style.bg, Some(CellColor::Rgb(1, 2, 3)));
}

#[test]
fn sgr_modifiers_add_and_remove() {
    let style = apply_sgr(CellStyle::new(), &vec![vec![1], vec![3], vec![4], vec![22]]);
    assert!(!style.has_modifier(MOD_BOLD));
    assert!(style.has_modifier(MOD_ITALIC));
    assert!(style.has_modifier(MOD_UNDERLINED));
    assert_eq!(style.sub_modifier & MOD_BOLD, MOD_BOLD);
}

#[test]
fn sgr_incomplete_extended_color_consumes_rest() {
    // 38;2 with only two components: no colour, and the remaining groups are consumed.
    let style = apply_sgr(CellStyle::new(), &vec![vec![38], vec![2], vec![1], vec![1]]);
    assert_eq!(style, CellStyle::new());
    // 38;7 is an unknown mode: both groups are consumed, the next applies.
    let style = apply_sgr(CellStyle::new(), &vec![vec![38], vec![7], vec![31]]);
    assert_eq!(style.fg, Some(CellColor::Red));
}

#[test]
fn sgr_default_colors() {
    let style = apply_sgr(CellStyle::new(), &vec![vec![31], vec![44], vec![39], vec![49]]);
    assert_eq!(style.fg, Some(CellColor::Reset));
    assert_eq!(style.bg, Some(CellColor::Reset));
}

#[test]
fn apply_all_prints_and_moves_cursor() {
    let mut sb = Scrollback::new(2);
    let st = CellStyle::new();
    sb.apply_all(&vec![
        TerminalAction::Print('x', st),
        TerminalAction::Tab,
        TerminalAction::Print('y', st),
        TerminalAction::CarriageReturn,
        TerminalAction::Print('z', st),
        TerminalAction::Newline,
    ]);
    assert_eq!(sb.total_lines(), 1);
    assert_eq!(line_text(&sb, 0), "z       y");
    assert_eq!(sb.current_line().plain_text(), "");
}

#[test]
fn zero_capacity_keeps_no_lines() {
    let mut sb = Scrollback::new(0);
    sb.feed(b"a\nb\n");
    assert_eq!(sb.total_lines(), 0);
    assert!(sb.get_lines(0, 10).is_empty());
}

#[test]
fn get_lines_past_end_is_empty() {
    let mut sb = Scrollback::new(10);
    sb.feed(b"a\nb\n");
    assert!(sb.get_lines(5, 3).is_empty());
    assert_eq!(sb.get_lines(1, 10).len(), 1);
}

#[test]
fn escape_split_across_feeds() {
    let mut sb = Scrollback::new(10);
    sb.feed(b"\x1b[3");
    sb.feed(b"2mok");
    for sc in &sb.current_line().chars {
        assert_eq!(sc.style.fg, Some(CellColor::Green));
    }
    assert_eq!(sb.current_line().plain_text(), "ok");
}

#[test]
fn terminal_line_new_is_empty() {
    assert_eq!(TerminalLine::new().plain_text(), "");
}

#[test]
fn test_vt_output_integration() {
    let mut scrollback = Scrollback::new(1000);
    let colored_output = b"\x1b[31mRED\x1b[0m normal";
    scrollback.feed(colored_output);

    let line = scrollback.current_line();
    let text = line.plain_text();
    assert_eq!(text, "RED normal");

    for sc in &line.chars[..3] {
        assert_eq!(sc.style.fg, Some(CellColor::Red), "Expected Red color for 'RED' portion");
    }
    for sc in &line.chars[3..] {
        assert_eq!(sc.style, CellStyle::new(), "Expected default style for ' normal' portion");
    }
}

#[test]
fn test_vt_process_output_end_to_end() {
    // What a pty hands back for `printf 'line1\nline2\nline3\n'`.
    let output = b"line1\r\nline2\r\nline3\r\n".to_vec();
    assert!(!output.is_empty());
    let mut scrollback = Scrollback::new(1000);
    scrollback.feed(&output);
    assert!(scrollback.total_lines() >= 2);
    assert_eq!(line_text(&scrollback, 0), "line1");
    assert_eq!(line_text(&scrollback, 2), "line3");
}

#[test]
fn feed_in_two_pieces_matches_feed_at_once() {
    let bytes = b"plain \x1b[31mred\x1b[0m\r\nnext caf\xc3\xa9\r\n";
    for cut in 0..bytes.len() {
        let mut whole = Scrollback::new(100);
        whole.feed(bytes);
        let mut split = Scrollback::new(100);
        split.feed(&bytes[..cut]);
        split.feed(&bytes[cut..]);
        assert_eq!(split.total_lines(), whole.total_lines());
        for i in 0..whole.total_lines() {
            assert_eq!(split.get_lines(i, 1)[0].chars, whole.get_lines(i, 1)[0].chars);
        }
        assert_eq!(split.current_line().chars, whole.current_line().chars);
    }
}

#[test]
fn sgr_split_across_feeds_still_colours() {
    let mut sb = Scrollback::new(10);
    sb.feed(b"\x1b[3");
    sb.feed(b"1mx\r\n");
    let line = sb.get_lines(0, 1)[0];
    assert_eq!(line.chars[0].ch, 'x');
    assert_eq!(line.chars[0].style.fg, Some(CellColor::Red));
}
