use apprunner::tui::layout::{abbreviate_home, browser_popup, centered_popup, list_offset, truncate_str};

#[test]
fn centered_popup_fits_inside_a_large_area() {
    assert_eq!(centered_popup(100, 40, 60, 10), (20, 15, 60, 10));
}

#[test]
fn centered_popup_shrinks_to_keep_a_margin() {
    assert_eq!(centered_popup(20, 8, 60, 10), (2, 2, 16, 4));
}

#[test]
fn centered_popup_on_a_tiny_area_is_empty() {
    assert_eq!(centered_popup(3, 3, 10, 10), (1, 1, 0, 0));
}

#[test]
fn browser_popup_takes_a_share_of_the_screen() {
    assert_eq!(browser_popup(100, 40), (20, 6, 60, 28));
}

#[test]
fn browser_popup_has_a_minimum_size() {
    assert_eq!(browser_popup(40, 12), (5, 1, 30, 10));
}

#[test]
fn browser_popup_never_exceeds_the_screen() {
    assert_eq!(browser_popup(20, 5), (1, 1, 18, 3));
}

#[test]
fn list_offset_keeps_selection_visible() {
    assert_eq!(list_offset(0, 10), 0);
    assert_eq!(list_offset(9, 10), 0);
    assert_eq!(list_offset(10, 10), 1);
    assert_eq!(list_offset(25, 10), 16);
}

#[test]
fn truncate_str_cuts_long_text_to_its_first_bytes() {
    assert_eq!(truncate_str("connection refused", 10), "connection");
    assert_eq!(truncate_str("short", 10), "short");
    assert_eq!(truncate_str("", 3), "");
    assert_eq!(truncate_str("caf\u{e9}!", 5), "caf\u{e9}");
}

#[test]
fn abbreviate_home_replaces_the_home_prefix() {
    assert_eq!(abbreviate_home("/home/u/src/app", Some("/home/u")), "~/src/app");
    assert_eq!(abbreviate_home("/srv/app", Some("/home/u")), "/srv/app");
    assert_eq!(abbreviate_home("/home/user2/x", Some("/home/u")), "/home/user2/x");
    assert_eq!(abbreviate_home("/home/u/src", None), "/home/u/src");
}
