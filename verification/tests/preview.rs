use codeck::selection::PreviewSelection;
use codeck::style::{Color, Rect};
use codeck::terminal_palette::{
    ansi_query, background_query, parse_osc_rgb, Rgb, TerminalPalette,
};

fn surface(lines: &[&str]) -> PreviewSelection {
    let mut selection = PreviewSelection::default();
    selection.update_surface(
        Rect::new(3, 5, 20, lines.len() as u16),
        &lines.iter().map(|line| (*line).to_string()).collect(),
    );
    selection
}

#[test]
fn dragging_forward_or_backward_selects_inclusive_terminal_cells() {
    let mut forward = surface(&["› hello"]);
    assert!(forward.begin(5, 5));
    assert!(forward.update(7, 5));
    assert_eq!(forward.finish(7, 5).as_deref(), Some("hel"));
    assert_eq!(forward.range_for_row(0), Some((2, 5)));

    let mut backward = surface(&["› hello"]);
    assert!(backward.begin(7, 5));
    assert!(backward.update(5, 5));
    assert_eq!(backward.finish(5, 5).as_deref(), Some("hel"));
    assert_eq!(backward.range_for_row(0), Some((2, 5)));
}

#[test]
fn click_without_drag_does_not_copy() {
    let mut selection = surface(&["hello"]);
    assert!(selection.begin(3, 5));
    assert_eq!(selection.finish(3, 5), None);
    assert_eq!(selection.range_for_row(0), None);
}

#[test]
fn multiline_selection_preserves_rendered_line_breaks() {
    let mut selection = surface(&["› hello", "│ world", "tail"]);
    assert!(selection.begin(5, 5));
    assert!(selection.update(5, 6));
    assert_eq!(selection.finish(5, 6).as_deref(), Some("hello\n│ w"));
    assert_eq!(selection.range_for_row(0), Some((2, 7)));
    assert_eq!(selection.range_for_row(1), Some((0, 3)));
    assert_eq!(selection.range_for_row(2), None);
}

#[test]
fn wide_graphemes_are_selected_as_whole_cells() {
    let mut selection = surface(&["你a"]);
    assert!(selection.begin(3, 5));
    assert!(selection.update(4, 5));
    assert_eq!(selection.finish(4, 5).as_deref(), Some("你"));
    assert_eq!(selection.range_for_row(0), Some((0, 2)));
}

#[test]
fn content_changes_clear_finished_selection_but_not_active_drag() {
    let mut selection = surface(&["hello"]);
    assert!(selection.begin(3, 5));
    assert!(selection.update(4, 5));
    selection.update_surface(Rect::new(3, 5, 20, 1), &vec!["hullo".to_string()]);
    assert!(selection.range_for_row(0).is_some());
    assert!(selection.finish(4, 5).is_some());

    selection.update_surface(Rect::new(3, 5, 20, 1), &vec!["world".to_string()]);
    assert_eq!(selection.range_for_row(0), None);
}

#[test]
fn a_drag_that_begins_outside_selects_nothing() {
    let mut selection = surface(&["hello"]);
    assert!(!selection.begin(2, 5));
    assert!(!selection.update(4, 5));
    assert_eq!(selection.finish(4, 5), None);
    selection.begin(3, 5);
    selection.update(99, 99);
    selection.clear();
    assert_eq!(selection.range_for_row(0), None);
    selection.clear_surface();
    assert!(!selection.begin(3, 5));
}

#[test]
fn parses_xterm_16_bit_and_8_bit_rgb_responses() {
    assert_eq!(
        parse_osc_rgb("]11;rgb:ffff/8080/0000\x1b", "]11;"),
        Some(Rgb { r: 255, g: 128, b: 0 })
    );
    assert_eq!(
        parse_osc_rgb("]4;6;rgb:00/80/ff\x07", "]4;6;"),
        Some(Rgb { r: 0, g: 128, b: 255 })
    );
}

#[test]
fn rejects_malformed_or_wrong_slot_responses() {
    assert_eq!(parse_osc_rgb("]4;5;rgb:00/80/ff\x07", "]4;6;"), None);
    assert_eq!(parse_osc_rgb("]4;6;rgb:00/80\x07", "]4;6;"), None);
    assert_eq!(parse_osc_rgb("]4;6;none\x07", "]4;6;"), None);
}

#[test]
fn derives_a_subtle_tint_from_terminal_background_and_ansi_color() {
    let mut palette = TerminalPalette {
        background: Some(Rgb { r: 255, g: 255, b: 255 }),
        ..TerminalPalette::default()
    };
    palette.ansi[6] = Some(Rgb { r: 0, g: 128, b: 255 });

    assert_eq!(palette.tinted_ansi(6), Color::Rgb(204, 230, 255));
    assert_eq!(palette.selection_background(), Color::Rgb(204, 230, 255));
    assert_eq!(palette.tinted_ansi(16), Color::Reset);
}

#[test]
fn missing_terminal_response_falls_back_to_default_background() {
    assert_eq!(TerminalPalette::default().tinted_ansi(6), Color::Reset);
}

#[test]
fn a_palette_comes_from_the_answers_of_the_terminal() {
    let palette = TerminalPalette::probe(
        Some("]11;rgb:0000/0000/0000\x1b"),
        &vec![(6, "]4;6;rgb:ffff/0000/0000\x1b".to_string())],
    );
    assert_eq!(palette.background, Some(Rgb { r: 0, g: 0, b: 0 }));
    assert_eq!(palette.ansi[6], Some(Rgb { r: 255, g: 0, b: 0 }));
    assert_eq!(palette.ansi[5], None);
    assert_eq!(TerminalPalette::probe(None, &Vec::new()).background, None);
    assert!(background_query().contains("]11;?"));
    assert!(ansi_query(6).contains("]4;6;?"));
}
