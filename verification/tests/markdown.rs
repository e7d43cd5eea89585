use std::num::NonZeroU16;

use codeck::cells::{emoji_cells, osc8_cells};
use codeck::events::parse_markdown;
use codeck::labels::{field_label_range, is_field_label_char};
use codeck::links::osc8_target;
use codeck::markdown::{render_events, render_markdown};
use codeck::style::{Color, Modifier, Rect, Style};
use codeck::styled::{StyledLine, StyledSpan};
use codeck::tables::table_record_trigger_width;
use codeck::wrap::wrap_lines;
use ratatui::backend::TestBackend;
use ratatui::buffer::CellDiffOption;
use ratatui::widgets::Paragraph;
use ratatui::Terminal;
use unicode_width::UnicodeWidthStr;

fn spans(lines: &[StyledLine]) -> Vec<&StyledSpan> {
    lines.iter().flat_map(|line| line.spans.iter()).collect()
}

fn texts(lines: &[StyledLine]) -> Vec<String> {
    lines.iter().map(|line| line.plain_text()).collect()
}

fn drawn_with_links(lines: &Vec<StyledLine>) -> Terminal<TestBackend> {
    let mut terminal = Terminal::new(TestBackend::new(20, 1)).expect("terminal");
    let cells = osc8_cells(Rect::new(0, 0, 20, 1), lines);
    terminal
        .draw(|frame| {
            let rendered = texts(lines).join("\n");
            frame.render_widget(Paragraph::new(rendered), frame.area());
            for link in &cells {
                if let Some(cell) = frame.buffer_mut().cell_mut((link.x, link.y)) {
                    cell.set_symbol(&link.symbol).set_diff_option(CellDiffOption::ForcedWidth(
                        NonZeroU16::new(link.width).expect("cell width"),
                    ));
                }
            }
        })
        .expect("draw");
    terminal
}

#[test]
fn markdown_styles_heading_emphasis_list_and_link() {
    let lines = render_markdown(
        "## Title\n\n- **bold** and *italic* [site](https://example.com)",
        Style::default(),
        80,
    );
    let spans = spans(&lines);
    assert!(spans
        .iter()
        .any(|span| span.text.contains("Title") && span.style.add_modifier.bold));
    assert!(spans.iter().any(|span| span.text.contains("• ")));
    assert!(spans
        .iter()
        .any(|span| span.text.contains("bold") && span.style.add_modifier.bold));
    assert!(spans
        .iter()
        .any(|span| span.text.contains("italic") && span.style.add_modifier.italic));
    assert!(spans.iter().any(|span| {
        span.text.contains("site") && span.link.as_deref() == Some("https://example.com")
    }));
}

#[test]
fn markdown_highlights_field_labels_in_wrapped_records() {
    let lines = render_markdown(
        "公司：英伟达\n代码: NVDA\n核心逻辑：数据中心 GPU 需求持续超预期",
        Style::default(),
        80,
    );
    let spans = spans(&lines);
    for label in ["公司：", "代码:", "核心逻辑："] {
        let span = spans.iter().find(|span| span.text == label).expect("field label span");
        assert_eq!(span.style.fg, Some(Color::Cyan));
        assert!(span.style.add_modifier.bold);
    }
    let value = spans.iter().find(|span| span.text.contains("英伟达")).expect("value span");
    assert_ne!(value.style.fg, Some(Color::Cyan));
}

#[test]
fn markdown_renders_wide_tables_as_field_records() {
    let lines = render_markdown(
        "| 公司 | 代码 | 核心逻辑 |\n\
         | --- | --- | --- |\n\
         | 英伟达 | NVDA | AI |\n\
         | 台积电 | TSM | 先进制程供应吃紧，CoWoS 封装产能持续扩张 |",
        Style::default(),
        28,
    );
    let rendered = texts(&lines);
    let separators = rendered
        .iter()
        .filter(|line| !line.is_empty() && line.chars().all(|ch| ch == '─'))
        .collect::<Vec<_>>();

    assert!(rendered.iter().any(|line| line == "公司: 英伟达"), "rendered={rendered:?}");
    assert!(rendered.iter().any(|line| line == "代码: NVDA"), "rendered={rendered:?}");
    assert!(rendered.iter().any(|line| line == "核心逻辑: AI"), "rendered={rendered:?}");
    assert!(rendered.iter().any(|line| line == "公司: 台积电"), "rendered={rendered:?}");
    assert!(
        rendered.iter().any(|line| line.starts_with("核心逻辑: 先进制程")),
        "rendered={rendered:?}"
    );
    assert_eq!(separators.len(), 3, "rendered={rendered:?}");
    assert_eq!(UnicodeWidthStr::width(separators[0].as_str()), 28);
    assert!(!rendered.iter().any(|line| line.contains("公司 │ 代码")));

    let label = spans(&lines).into_iter().find(|span| span.text == "公司:").expect("field label");
    assert_eq!(label.style.fg, Some(Color::Cyan));
    assert!(label.style.add_modifier.bold);
}

#[test]
fn markdown_renders_readability_wide_tables_as_field_records() {
    let lines = render_markdown(
        "| 口径 | Taiwan | U.S. | Japan |\n\
         |---|---:|---:|---:|\n\
         | N3 | 约 80% | 约 10-15% | 约 5-8% |\n\
         | N2 及更先进，旧 $165bn 计划 | 约 70% | 约 30% | 0 |\n\
         | N2 及更先进，新增 $100bn 后 | 约 53-60% | 约 40-47% | 0 |\n\
         | N3+ 合计，新增后 | 约 60-65% | 约 32-37% | 约 2-4% |",
        Style::default(),
        80,
    );
    let rendered = texts(&lines);
    let separators = rendered
        .iter()
        .filter(|line| !line.is_empty() && line.chars().all(|ch| ch == '─'))
        .collect::<Vec<_>>();

    assert!(
        rendered.iter().any(|line| line == "口径: N2 及更先进，旧 $165bn 计划"),
        "rendered={rendered:?}"
    );
    assert!(rendered.iter().any(|line| line == "U.S.: 约 40-47%"), "rendered={rendered:?}");
    assert_eq!(separators.len(), 5, "rendered={rendered:?}");
    assert!(!rendered.iter().any(|line| line.contains("口径 │ Taiwan")));
}

#[test]
fn markdown_keeps_narrow_tables_compact() {
    let lines = render_markdown(
        "| 公司 | 代码 |\n| --- | --- |\n| 英伟达 | NVDA |",
        Style::default(),
        80,
    );
    let rendered = texts(&lines);

    assert!(rendered.iter().any(|line| line == "公司   │ 代码"), "rendered={rendered:?}");
    assert!(rendered.iter().any(|line| line == "英伟达 │ NVDA"), "rendered={rendered:?}");
    assert!(!rendered.iter().any(|line| line == "公司: 英伟达"));
}

#[test]
fn markdown_aligns_and_colors_compact_tables() {
    let lines = render_markdown(
        "| 项目 | 算法 | 结果 |\n\
         |---|---|---:|\n\
         | 单座先进 fab | 20-25k wpm | 20-25k |\n\
         | 旧 AZ N2+ | 4 座 x 20-25k | 80-100k |",
        Style::default(),
        80,
    );
    let rendered = texts(&lines);
    let table_lines =
        rendered.iter().filter(|line| line.contains('│')).collect::<Vec<_>>();
    let first_column_widths = table_lines
        .iter()
        .map(|line| UnicodeWidthStr::width(line.split('│').next().unwrap_or_default()))
        .collect::<Vec<_>>();
    let result_column_widths = table_lines
        .iter()
        .map(|line| UnicodeWidthStr::width(line.rsplit('│').next().unwrap_or_default()))
        .collect::<Vec<_>>();

    assert_eq!(table_lines.len(), 3, "rendered={rendered:?}");
    assert!(first_column_widths.windows(2).all(|pair| pair[0] == pair[1]));
    assert!(result_column_widths.windows(2).all(|pair| pair[0] == pair[1]));
    assert!(!rendered.iter().any(|line| line.contains("项目:")));

    let spans = spans(&lines);
    let header = spans.iter().find(|span| span.text == "项目").expect("header");
    assert_eq!(header.style.fg, Some(Color::Cyan));
    assert!(header.style.add_modifier.bold);

    let key = spans.iter().find(|span| span.text == "旧 AZ N2+").expect("key");
    assert_eq!(key.style.fg, Some(Color::Cyan));
    assert!(key.style.add_modifier.bold);

    let value = spans.iter().find(|span| span.text == "80-100k").expect("value");
    assert_eq!(value.style.fg, Some(Color::Yellow));
}

#[test]
fn markdown_does_not_highlight_urls_or_code_block_fields() {
    let lines = render_markdown(
        "https://example.com/path\n\n```text\n公司：英伟达\n口径 | Taiwan\nN3 | 约 80%\n```\n\n```markdown\n| 公司 | 代码 |\n| --- | --- |\n| 英伟达 | NVDA |\n```",
        Style::default(),
        80,
    );
    let highlighted = spans(&lines)
        .into_iter()
        .filter(|span| span.style.fg == Some(Color::Cyan))
        .map(|span| span.text.as_str())
        .collect::<Vec<_>>();

    assert!(!highlighted.iter().any(|text| *text == "https:"));
    assert!(!highlighted.iter().any(|text| *text == "公司："));
    let rendered = texts(&lines);
    assert!(rendered.iter().any(|line| line.contains("| 公司 | 代码 |")));
    assert!(rendered.iter().any(|line| line.contains("口径 | Taiwan")));
    assert!(!rendered.iter().any(|line| line == "公司: 英伟达"));
    assert!(!rendered.iter().any(|line| line == "口径: N3"));
}

#[test]
fn osc8_link_is_stored_as_a_forced_width_cell() {
    let lines = render_markdown("[site](https://example.com)", Style::default(), 20);
    let terminal = drawn_with_links(&lines);
    let cell = terminal.backend().buffer().cell((0, 0)).expect("cell");
    assert!(cell.symbol().contains("\x1b]8;;https://example.com"));
    assert!(matches!(cell.diff_option, CellDiffOption::ForcedWidth(_)));
}

#[test]
fn osc8_link_preserves_wide_character_cell_positions() {
    let lines = render_markdown("[中文](file:///tmp/note.md)", Style::default(), 20);
    let terminal = drawn_with_links(&lines);
    let first = terminal.backend().buffer().cell((0, 0)).expect("first");
    let second = terminal.backend().buffer().cell((2, 0)).expect("second");
    assert!(matches!(
        first.diff_option,
        CellDiffOption::ForcedWidth(width) if width.get() == 2
    ));
    assert!(second.symbol().contains("文"));
}

#[test]
fn osc8_rejects_control_sequences_and_normalizes_file_paths() {
    assert_eq!(osc8_target("/tmp/My File.md"), Some("file:///tmp/My%20File.md".to_string()));
    assert_eq!(osc8_target("https://example.com/\u{1b}]8;;bad"), None);
}

#[test]
fn link_targets_need_a_known_scheme() {
    assert_eq!(osc8_target("mailto:a@b.c"), Some("mailto:a@b.c".to_string()));
    assert_eq!(osc8_target("ftp://example.com"), None);
    assert_eq!(osc8_target("relative/path"), None);
}

#[test]
fn links_stop_at_the_right_border() {
    let line = StyledLine {
        spans: vec![
            StyledSpan { text: "ab".to_string(), style: Style::default(), link: None },
            StyledSpan {
                text: "你好".to_string(),
                style: Style::default(),
                link: Some("https://x.y".to_string()),
            },
        ],
    };
    let cells = osc8_cells(Rect::new(1, 3, 5, 1), &vec![line]);
    assert_eq!(cells.len(), 1);
    assert_eq!((cells[0].x, cells[0].y, cells[0].width), (3, 3, 2));
    assert_eq!(cells[0].symbol, "\x1b]8;;https://x.y\x1b\\你\x1b]8;;\x1b\\");
}

#[test]
fn wide_signs_are_found_at_the_start_of_lines() {
    let lines = vec![
        StyledLine::from_span("🎯 prompt", Style::default()),
        StyledLine::from_span("plain", Style::default()),
        StyledLine::default(),
        StyledLine::from_span("❓ question", Style::default()),
    ];
    assert_eq!(emoji_cells(Rect::new(2, 4, 10, 4), &lines), vec![(2, 4), (2, 7)]);
    assert_eq!(emoji_cells(Rect::new(2, 4, 10, 1), &lines), vec![(2, 4)]);
}

#[test]
fn selected_columns_are_shaded_and_the_text_stays() {
    let line = StyledLine::from_span("你abc", Style::default());
    let shaded = line.select(Some((2, 4)), Color::Rgb(1, 2, 3));
    assert_eq!(shaded.plain_text(), "你abc");
    assert_eq!(shaded.spans.len(), 3);
    assert_eq!(shaded.spans[1].text, "ab");
    assert_eq!(shaded.spans[1].style.bg, Some(Color::Rgb(1, 2, 3)));
    assert_eq!(shaded.spans[2].style.bg, None);
    assert_eq!(line.select(None, Color::Red), line);
}

#[test]
fn rendering_an_empty_text_gives_one_line() {
    assert_eq!(render_markdown("", Style::default(), 10).len(), 1);
    assert_eq!(render_events(&Vec::new(), Style::default(), 10).len(), 1);
    assert!(!parse_markdown("text").is_empty());
}

#[test]
fn labels_are_short_and_wrapped_lines_keep_their_width() {
    assert_eq!(field_label_range("  Name: x"), Some((2, 7)));
    assert_eq!(field_label_range("no label"), None);
    assert_eq!(field_label_range("https://x"), None);
    assert!(is_field_label_char('字'));
    assert!(!is_field_label_char('!'));
    let wrapped = wrap_lines(&vec![StyledLine::from_span("abcdef", Style::default())], 4);
    assert_eq!(texts(&wrapped), vec!["abcd".to_string(), "ef".to_string()]);
    assert_eq!(table_record_trigger_width(0), 1);
}

#[test]
fn styles_lie_over_each_other() {
    let base = Style::default().fg(Color::Red).add_modifier(Modifier::bold());
    let over = Style::default().bg(Color::Blue).remove_modifier(Modifier::bold());
    let patched = base.patch(over);
    assert_eq!(patched.fg, Some(Color::Red));
    assert_eq!(patched.bg, Some(Color::Blue));
    assert!(!patched.add_modifier.bold);
    assert_eq!(base.patch(Style::default()), base);
}

#[test]
fn wrapped_lines_fit_the_width() {
    let words = "several words and averyveryverylongword 你好世界 in one line";
    for width in [2, 5, 9, 40] {
        let lines = wrap_lines(&vec![StyledLine::from_span(words, Style::default())], width);
        assert!(lines.iter().all(|line| line.width() <= width));
    }
    let wide = wrap_lines(&vec![StyledLine::from_span("你好", Style::default())], 1);
    assert_eq!(wide.iter().map(|line| line.plain_text()).collect::<Vec<_>>(), vec!["你", "好"]);
}
