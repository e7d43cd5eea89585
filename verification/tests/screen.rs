use std::num::NonZeroU16;

use codeck::cells::emoji_cells;
use codeck::composer::{ComposeTarget, Composer, SkillReference};
use codeck::composer_view::{
    composer_accent, composer_ansi_index, composer_background, composer_box_height,
    composer_context_title, composer_height, composer_prefix, layout_with_cursor,
    styled_composer_layout, truncate_display, wrapped_hint_lines,
};
use codeck::json::parse_json;
use codeck::keys::{KeyCode, KeyEvent};
use codeck::lifecycle::LifecycleStore;
use codeck::menus::{
    command_picker_lines, help_lines, skill_picker_lines, SkillItem, SkillPickerView,
    SlashCommandItem, SlashCommandPickerView,
};
use codeck::model::{MessageEntry, MessageKind, PreviewVerbosity, Session, SessionStatus};
use codeck::render::{footer_lines, render};
use codeck::rows::{message_lines, message_style, session_line, ScreenRow};
use codeck::rpc::RpcOutbox;
use codeck::screen::{Panel, Screen};
use codeck::state::App;
use codeck::style::{Color, Rect, Style};
use codeck::styled::StyledLine;
use codeck::terminal_palette::TerminalPalette;
use ratatui::backend::TestBackend;
use ratatui::buffer::CellDiffOption;
use ratatui::widgets::Paragraph;
use ratatui::Terminal;
use unicode_width::UnicodeWidthStr;

fn session(title: &str, status: SessionStatus) -> Session {
    Session {
        id: "thread".to_string(),
        title: title.to_string(),
        preview: String::new(),
        cwd: "/tmp/project".to_string(),
        path: None,
        updated_at: 0,
        source: "appServer".to_string(),
        thread_source: Some("codeck".to_string()),
        status,
        active_turn_id: None,
        messages: Vec::new(),
        history_loaded: true,
    }
}

fn app_with(sessions: Vec<Session>) -> App {
    let mut app = App::with_lifecycle(
        "/tmp".to_string(),
        false,
        LifecycleStore::for_test("/tmp/lifecycle.json".to_string()),
    );
    for session in sessions {
        app.sessions_mut().push(session);
    }
    app
}

fn row_text(row: &ScreenRow) -> String {
    row.spans.iter().map(|span| span.text.as_str()).collect()
}

fn panel_texts(panel: &Panel) -> Vec<String> {
    panel.rows.iter().map(row_text).collect()
}

fn entry(id: &str, kind: MessageKind, text: &str) -> MessageEntry {
    MessageEntry { id: id.to_string(), kind, text: text.to_string() }
}

fn all_text(lines: &[StyledLine]) -> String {
    lines.iter().flat_map(|line| line.spans.iter()).map(|span| span.text.as_str()).collect()
}

#[test]
fn truncation_respects_cjk_width() {
    assert_eq!(truncate_display("中文标题", 5), "中文…");
    assert_eq!(truncate_display("abc", 0), "");
    assert_eq!(truncate_display("abc", 1), "…");
    assert_eq!(truncate_display("abc", 3), "abc");
}

#[test]
fn composer_cursor_wraps_to_second_row() {
    let (lines, row, column) = layout_with_cursor("123456", 6, 4);
    assert_eq!(lines[0], "1234");
    assert_eq!(lines[1], "56");
    assert_eq!((row, column), (1, 2));
}

#[test]
fn composer_starts_at_one_row_and_grows_with_wrapped_content() {
    assert_eq!(composer_height("＋ new › ", "", 40, 10), 1);
    assert_eq!(composer_height("＋ new › ", "1234567890", 10, 10), 2);
    assert_eq!(composer_height("＋ new › ", "\nsecond\nthird", 40, 2), 2);
    assert_eq!(composer_prefix(ComposeTarget::Reply, false), "↳ reply › ");
}

#[test]
fn composer_box_reserves_a_title_and_grows_with_wrapped_input() {
    assert_eq!(composer_box_height("> ", "", 5, 10), 2);
    assert_eq!(composer_box_height("> ", "", 5, 1), 1);
    assert_eq!(composer_box_height("> ", "1234567890", 5, 10), 4);
    assert_eq!(composer_box_height("> ", "1234567890", 5, 3), 3);
}

#[test]
fn composer_palette_uses_terminal_ansi_colors() {
    let palette = TerminalPalette::default();
    assert_eq!(composer_background(ComposeTarget::Reply, false, &palette), Color::Reset);
    assert_eq!(composer_ansi_index(ComposeTarget::NewTask, false), 2);
    assert_eq!(composer_ansi_index(ComposeTarget::Reply, true), 3);
    assert_eq!(composer_ansi_index(ComposeTarget::Reply, false), 6);
    assert_eq!(composer_ansi_index(ComposeTarget::Rename, false), 5);
    assert_eq!(composer_accent(ComposeTarget::NewTask, false), Color::Green);
    assert_eq!(composer_accent(ComposeTarget::Reply, true), Color::Yellow);
    assert_eq!(composer_accent(ComposeTarget::Reply, false), Color::Cyan);
    assert_eq!(composer_accent(ComposeTarget::Rename, false), Color::Magenta);
}

#[test]
fn working_reply_context_adds_a_green_lamp() {
    let mut active = session("Active research", SessionStatus::Working);
    active.active_turn_id = Some("turn".to_string());

    let (working, title) = composer_context_title(ComposeTarget::Reply, Some(&active), 80);
    assert!(working);
    assert_eq!(title, "Active research");
    assert!(!composer_context_title(ComposeTarget::NewTask, Some(&active), 80).0);
    assert_eq!(composer_context_title(ComposeTarget::Rename, None, 80).1, "Rename");
    assert_eq!(
        composer_context_title(ComposeTarget::Rename, Some(&active), 80).1,
        "Rename: Active research"
    );
}

#[test]
fn composer_tokens_use_ansi_foreground_without_background() {
    let mut composer = Composer::default();
    composer.insert("$doc");
    composer.replace_with_skill(
        0,
        SkillReference {
            name: "documents".to_string(),
            path: "/tmp/documents/SKILL.md".to_string(),
        },
    );
    composer.attach_image("/tmp/chart.png".to_string());
    composer.attach_pasted_text("long pasted content".to_string());

    let (lines, _, _) = styled_composer_layout(
        "＋ new › ",
        &composer.text,
        composer.cursor,
        &composer.tokens,
        Style::default().fg(Color::Green),
        80,
    );
    let skill = lines[0]
        .spans
        .iter()
        .find(|span| span.text.contains("$documents"))
        .expect("styled skill token");
    let image = lines[0]
        .spans
        .iter()
        .find(|span| span.text.contains("[Image #1]"))
        .expect("styled image token");
    let pasted = lines[0]
        .spans
        .iter()
        .find(|span| span.text.contains("[Pasted text #1"))
        .expect("styled pasted text token");

    assert_eq!(skill.style.fg, Some(Color::Magenta));
    assert_eq!(image.style.fg, Some(Color::Yellow));
    assert_eq!(pasted.style.fg, Some(Color::Blue));
    assert!(skill.style.bg.is_none());
    assert!(image.style.bg.is_none());
    assert!(pasted.style.bg.is_none());
}

#[test]
fn selected_session_uses_ansi_foreground_without_background() {
    let line = session_line(
        &session("Readable selection", SessionStatus::Working),
        false,
        true,
        None,
        40,
    );
    assert_eq!(line.style.fg, Some(Color::Cyan));
    assert!(line.style.add_modifier.bold);
    assert!(!line.style.add_modifier.reversed);
    assert!(line.style.bg.is_none());
    assert!(!line.spans.iter().any(|span| span.text.contains('›')));
    assert_eq!(line.spans[0].text, "   ");
    assert_eq!(line.spans[1].text, "● ");
    assert_eq!(line.spans[1].style.fg, Some(Color::Green));
    assert!(!line.spans[1].style.add_modifier.slow_blink);
}

#[test]
fn non_working_sessions_reserve_lamp_space_without_showing_a_lamp() {
    for status in [SessionStatus::NeedsInput, SessionStatus::Completed, SessionStatus::Failed] {
        let line = session_line(&session("Idle session", status), false, false, None, 40);
        assert_eq!(line.spans[0].text, "   ");
        assert_eq!(line.spans[1].text, "  ");
        assert!(!line.spans.iter().any(|span| span.text.contains('●')));
        assert!(!line.spans.iter().any(|span| span.text.contains('›')));
        assert_eq!(line.spans[2].style.fg, None);
    }
}

#[test]
fn pinned_session_uses_reserved_left_slot() {
    let line = session_line(
        &session("Pinned session", SessionStatus::Completed),
        true,
        false,
        None,
        40,
    );
    assert_eq!(line.spans[0].text, "📌 ");
    assert_eq!(line.spans[4].text, "project");
    assert_eq!(
        UnicodeWidthStr::width(line.spans[0].text.as_str()),
        UnicodeWidthStr::width("   ")
    );
}

#[test]
fn ctrl_x_confirmation_replaces_directory_on_the_session_row() {
    let mut working = session("Working session", SessionStatus::Working);
    working.active_turn_id = Some("turn".to_string());
    let line = session_line(&working, false, true, Some("Ctrl+X again: pause"), 60);
    assert_eq!(line.spans[4].text, "Ctrl+X again: pause");
    assert_eq!(line.spans[4].style.fg, Some(Color::Yellow));
    assert!(!line.spans.iter().any(|span| span.text == "project"));
    assert_eq!(UnicodeWidthStr::width(row_text(&line).as_str()), 60);
}

#[test]
fn message_stream_keeps_role_gutter_and_markdown_styles() {
    let lines = message_lines(
        &vec![entry("final", MessageKind::Final, "**Done**\n\n- [link](https://example.com)")],
        60,
        PreviewVerbosity::Full,
    );
    let spans = lines.iter().flat_map(|line| line.spans.iter()).collect::<Vec<_>>();

    assert!(spans.iter().any(|span| span.text == "✅ "));
    assert!(spans.iter().any(|span| span.text.contains("Done") && span.style.add_modifier.bold));
    assert!(spans.iter().any(|span| {
        span.text.contains("link") && span.link.as_deref() == Some("https://example.com")
    }));
    assert_eq!(message_style(MessageKind::User).0, "🎯 ");
}

#[test]
fn preview_emoji_gutters_force_two_cell_diff_width() {
    let texts = ["🎯 prompt", "🧠 thinking", "💬 progress", "✅ final", "❓ question"];
    let lines = texts
        .iter()
        .map(|text| StyledLine::from_span(text, Style::default()))
        .collect::<Vec<_>>();
    let cells = emoji_cells(Rect::new(0, 0, 20, lines.len() as u16), &lines);
    let mut terminal =
        Terminal::new(TestBackend::new(20, lines.len() as u16)).expect("test terminal");

    terminal
        .draw(|frame| {
            frame.render_widget(Paragraph::new(texts.join("\n")), frame.area());
            for cell in &cells {
                frame.buffer_mut().cell_mut(*cell).expect("cell").set_diff_option(
                    CellDiffOption::ForcedWidth(NonZeroU16::new(2).expect("emoji width")),
                );
            }
        })
        .expect("render emoji gutters");

    for row in 0..lines.len() as u16 {
        let cell = terminal.backend().buffer().cell((0, row)).expect("emoji cell");
        assert!(matches!(
            cell.diff_option,
            CellDiffOption::ForcedWidth(width) if width.get() == 2
        ));
    }
}

#[test]
fn preview_verbosity_filters_only_assistant_detail_levels() {
    let messages = vec![
        entry("user", MessageKind::User, "Prompt"),
        entry("thinking", MessageKind::Thinking, "Reasoning"),
        entry("progress", MessageKind::Progress, "Working"),
        entry("final", MessageKind::Final, "Done"),
    ];

    let progress_text = all_text(&message_lines(&messages, 60, PreviewVerbosity::Progress));
    assert!(progress_text.contains("Prompt"));
    assert!(!progress_text.contains("Reasoning"));
    assert!(progress_text.contains("Working"));
    assert!(progress_text.contains("Done"));

    let final_text = all_text(&message_lines(&messages, 60, PreviewVerbosity::Final));
    assert!(final_text.contains("Prompt"));
    assert!(!final_text.contains("Reasoning"));
    assert!(!final_text.contains("Working"));
    assert!(final_text.contains("Done"));
}

#[test]
fn hints_wrap_without_an_empty_row() {
    assert_eq!(wrapped_hint_lines("abcd", 4), vec!["abcd".to_string()]);
    assert_eq!(wrapped_hint_lines("abcde", 4), vec!["abcd".to_string(), "e".to_string()]);
    assert_eq!(wrapped_hint_lines("", 4), vec![String::new()]);
}

#[test]
fn the_dashboard_is_drawn_in_parts() {
    let mut first = session("First", SessionStatus::Working);
    first.id = "a".to_string();
    first.messages.push(entry("m", MessageKind::Final, "Hello"));
    let mut second = session("Second", SessionStatus::Completed);
    second.id = "b".to_string();
    let mut app = app_with(vec![first, second]);
    let area = Rect::new(0, 0, 40, 12);
    let screen: Screen = render(&mut app, area, &TerminalPalette::default(), None);
    let sessions = &screen.panels[0];
    assert_eq!(sessions.area, Rect::new(0, 0, 40, 2));
    assert!(row_text(&sessions.rows[0]).contains("First"));
    assert_eq!(screen.panels[1].area, Rect::new(0, 2, 40, 1));
    assert_eq!(row_text(&screen.panels[1].rows[0]), "─".repeat(40));
    let preview = &screen.panels[2];
    assert_eq!(preview.area.y, 3);
    assert!(row_text(&preview.rows[0]).contains("Hello"));
    assert_eq!(screen.wide_cells, vec![(0, 3)]);
    let footer = screen.panels.last().expect("footer");
    assert_eq!(footer.area.y + footer.area.height, 12);
    assert!(panel_texts(footer)[0].contains("Connecting to Codex…"));
    assert_eq!(screen.cursor, None);
    assert_eq!(app.message_view_height(), preview.area.height as usize);
}

#[test]
fn the_composer_is_drawn_with_its_title_and_cursor() {
    let mut app = app_with(vec![session("Talk", SessionStatus::Working)]);
    let mut sender = RpcOutbox::default();
    app.handle_key(KeyEvent::plain(KeyCode::Char(' ')), &mut sender);
    app.insert_text("hi");
    let screen = render(&mut app, Rect::new(0, 0, 40, 12), &TerminalPalette::default(), None);
    let title = screen
        .panels
        .iter()
        .find(|panel| panel_texts(panel)[0] == "  ● Talk")
        .expect("title");
    let editor = screen
        .panels
        .iter()
        .find(|panel| panel_texts(panel)[0] == "↳ reply › hi")
        .expect("editor");
    assert_eq!(title.area.height, 1);
    assert_eq!(editor.area.y, title.area.y + 1);
    assert_eq!(editor.background, Some(Color::Reset));
    assert_eq!(screen.cursor, Some((12, editor.area.y)));
    assert!(footer_lines(&app, 80).iter().any(|line| line.contains("Enter send")));
}

#[test]
fn the_help_and_the_menu_take_the_whole_screen() {
    let mut app = app_with(Vec::new());
    let mut sender = RpcOutbox::default();
    let palette = TerminalPalette::default();
    app.handle_key(KeyEvent::plain(KeyCode::Char('?')), &mut sender);
    let screen = render(&mut app, Rect::new(0, 0, 40, 24), &palette, None);
    assert_eq!(screen.panels.len(), 1);
    assert_eq!(panel_texts(&screen.panels[0])[0], "  Codeck shortcuts");
    assert_eq!(help_lines().len(), 23);
    app.handle_key(KeyEvent::plain(KeyCode::Char('?')), &mut sender);
    app.merge_thread_list(
        &parse_json(
            br#"{"data":[{"id":"old","preview":"Old work","cwd":"/tmp/old","status":{"type":"idle"}}]}"#,
        )
        .expect("list"),
    );
    app.open_menu();
    app.handle_key(KeyEvent::plain(KeyCode::Char('o')), &mut sender);
    let screen = render(&mut app, Rect::new(0, 0, 40, 12), &palette, None);
    let rows = panel_texts(&screen.panels[0]);
    assert_eq!(screen.panels[0].area, Rect::new(0, 1, 40, 10));
    assert_eq!(rows[2], "Find › o");
    assert!(rows[4].contains("Old work"));
    assert_eq!(screen.cursor, Some((8, 3)));
    app.handle_key(KeyEvent::plain(KeyCode::Tab), &mut sender);
    let screen = render(&mut app, Rect::new(0, 0, 40, 12), &palette, None);
    let rows = panel_texts(&screen.panels[0]);
    assert_eq!(rows[2], "Preview verbosity");
    assert_eq!(rows[3], "› 🧠 Full      thinking, progress, and final replies");
    assert_eq!(screen.cursor, Some((0, 4)));
    let screen = render(&mut app, Rect::new(0, 0, 0, 0), &palette, None);
    assert!(screen.panels.is_empty());
}

#[test]
fn pickers_show_the_selected_item() {
    let items = (0..9)
        .map(|index| SkillItem {
            name: format!("skill{index}"),
            description: "does things".to_string(),
            scope: if index == 8 { "user".to_string() } else { String::new() },
        })
        .collect::<Vec<_>>();
    let picker = SkillPickerView { items, selected: 8, loading: false };
    let rows = skill_picker_lines(&picker, 4);
    assert_eq!(rows.len(), 4);
    assert_eq!(row_text(&rows[0]), "$ Skills  ↑↓ select · Enter/Tab insert");
    assert!(row_text(&rows[3]).starts_with("› $skill8"));
    assert!(row_text(&rows[3]).ends_with("does things  user"));
    let loading = SkillPickerView { items: Vec::new(), selected: 0, loading: true };
    assert_eq!(row_text(&skill_picker_lines(&loading, 4)[1]), "  Loading skills…");
    let commands = SlashCommandPickerView {
        items: vec![SlashCommandItem {
            name: "review".to_string(),
            description: "Review changes".to_string(),
        }],
        selected: 0,
    };
    let rows = command_picker_lines(&commands, 4);
    assert!(row_text(&rows[1]).starts_with("› /review"));
    let mut app = app_with(vec![session("Talk", SessionStatus::Working)]);
    let screen = render(
        &mut app,
        Rect::new(0, 0, 40, 20),
        &TerminalPalette::default(),
        Some(commands),
    );
    assert!(screen.panels.iter().any(|panel| panel_texts(panel)[0].starts_with("/ Commands")));
}

#[test]
fn the_preview_scrolls_back_no_further_than_its_first_line() {
    let mut talk = session("Talk", SessionStatus::Completed);
    for index in 0..20 {
        talk.messages.push(entry(&format!("m{index}"), MessageKind::Final, &format!("line {index}")));
    }
    let mut app = app_with(vec![talk]);
    app.scroll_preview(1000);
    let screen = render(&mut app, Rect::new(0, 0, 40, 12), &TerminalPalette::default(), None);
    assert!(panel_texts(&screen.panels[2])[0].contains("line 0"));
    assert_eq!(app.scroll_back(), 40 - app.message_view_height());
}

#[test]
fn selected_preview_text_is_copied_and_shaded() {
    let mut talk = session("Talk", SessionStatus::Completed);
    talk.messages.push(entry("m", MessageKind::Final, "hello"));
    let mut app = app_with(vec![talk]);
    let area = Rect::new(0, 0, 40, 12);
    let palette = TerminalPalette::default();
    let screen = render(&mut app, area, &palette, None);
    let top = screen.panels[2].area.y;
    assert!(app.begin_preview_selection(3, top));
    assert!(app.update_preview_selection(5, top));
    let screen = render(&mut app, area, &palette, None);
    assert!(screen.panels[2].rows[0]
        .spans
        .iter()
        .any(|span| span.text == "hel" && span.style.bg == Some(Color::Reset)));
    assert_eq!(app.finish_preview_selection(5, top).as_deref(), Some("hel"));
}

#[test]
fn wrapped_rows_hold_the_whole_text() {
    let text = "one two\nthree 你好\n";
    for width in [1, 3, 4, 9, 80] {
        let (rows, _, _) = layout_with_cursor(text, 0, width);
        assert_eq!(rows.concat(), text.replace('\n', ""));
    }
}

#[test]
fn the_screen_shows_the_skills_that_are_searched_for() {
    let mut app = app_with(vec![session("Talk", SessionStatus::Completed)]);
    let palette = TerminalPalette::default();
    let area = Rect::new(0, 0, 40, 20);
    app.open_composer();
    let screen = render(&mut app, area, &palette, None);
    assert!(!screen.panels.iter().any(|panel| panel_texts(panel)[0].starts_with("$ Skills")));
    app.insert_text("$");
    let screen = render(&mut app, area, &palette, None);
    assert!(screen.panels.iter().any(|panel| panel_texts(panel)[0].starts_with("$ Skills")));
}
