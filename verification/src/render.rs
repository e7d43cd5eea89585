//! Drawing the whole dashboard.

use vstd::prelude::*;

use crate::cells::screen_columns;
use crate::composer::ComposeTarget;
use crate::composer_view::{
    accent_of, ansi_of, at_least_one, between, box_rows, cell_at, composer_accent,
    composer_background, composer_box_height, composer_context_title, composer_prefix,
    composer_rows, cursor_of, hint_rows, origin, prefix_of, styled_composer_layout, title_has_lamp,
    title_label, title_room, truncated, wrapped_hint_lines,
};
use crate::labels::{max_int, min_int};
use crate::layout::{Cell, cell_after};
use crate::menus::{
    command_picker_lines, command_picker_rows, CommandItemView, dim_row, help_lines, help_rows,
    HistoryPickerView, resume_lines, resume_rows, settings_lines, settings_rows, skill_picker_lines,
    skill_picker_rows, SkillItemView, SkillPickerView, SlashCommandPickerView,
};
use crate::model::{PreviewVerbosity, SessionView};
use crate::rows::{dim_style, row1, row2, row3, ScreenRow, ScreenRowView, span, styled};
use crate::screen::{
    divides, drawing, Drawing, fixed_height, has_no_cell, height_before, on_screen, open_rows,
    render_messages, render_separator, render_sessions, rows_fit, Screen, ScreenView,
    separator_rows, split_rows,
};
use crate::segmentation::{display_width, grapheme_clusters, text_width};
use crate::skills::skill_items;
use crate::state::{App, AppView, MenuTab, MenuView, option_view};
use crate::style::{bold_colored, Color, colored, Rect, screen_limit, Style};
use crate::styled::{SpanView, StyledLine, StyledSpan};
use crate::terminal_palette::{TerminalPalette, tint};
use crate::text::{byte_len, concat_text, copy_option, lemma_is_offset, text_is_empty, texts};
use crate::views::{group_views, views};

verus! {

broadcast use group_views;

/// What a picker above the composer offers.
#[derive(Debug)]
pub enum Picker {
    Skills(SkillPickerView),
    Commands(SlashCommandPickerView),
}

/// The mathematical form of a picker.
#[verifier::ext_equal]
pub enum PickerView {
    Skills { items: Seq<SkillItemView>, selected: int, loading: bool },
    Commands { commands: Seq<CommandItemView>, selected: int },
}

impl View for Picker {
    type V = PickerView;

    open spec fn view(&self) -> PickerView {
        match self {
            Picker::Skills(picker) => PickerView::Skills {
                items: views(picker.items@),
                selected: picker.selected as int,
                loading: picker.loading,
            },
            Picker::Commands(picker) => PickerView::Commands {
                commands: views(picker.items@),
                selected: picker.selected as int,
            },
        }
    }
}

/// The picker that is shown: the commands, where there are some to choose from, or
/// else the skills that fit the search in the composer.
pub open spec fn picker_shown(app: AppView, commands: Option<SlashCommandPickerView>) -> Option<
    PickerView,
> {
    match (commands, app.picking()) {
        (Some(commands), _) => Some(Picker::Commands(commands)@),
        (None, Some(search)) => {
            let offered = app.offered_skills(search.query);
            Some(
                PickerView::Skills {
                    items: skill_items(offered),
                    selected: max_int(app.choice_among(offered.len() as int), 0),
                    loading: app.skills is None || app.skills_cwd != app.active_directory(),
                },
            )
        },
        (None, None) => None,
    }
}

fn picker_of(app: &App, commands: Option<SlashCommandPickerView>) -> (picker: Option<Picker>)
    requires
        app@.wf(),
    ensures
        option_view(picker) == picker_shown(app@, commands),
{
    match commands {
        Some(commands) => Some(Picker::Commands(commands)),
        None => match app.skill_picker_view() {
            Some(skills) => Some(Picker::Skills(skills)),
            None => None,
        },
    }
}

/// The number of items that a picker offers.
pub open spec fn picker_items(picker: Option<PickerView>) -> int {
    match picker {
        Some(PickerView::Skills { items, .. }) => items.len() as int,
        Some(PickerView::Commands { commands, .. }) => commands.len() as int,
        None => 0,
    }
}

/// The rows that a picker takes: a heading, and one to six items.
pub open spec fn picker_height(picker: Option<PickerView>) -> int {
    if picker is Some {
        between(picker_items(picker), 1, 6) + 1
    } else {
        0
    }
}

fn picker_height_of(picker: &Option<Picker>) -> (height: u16)
    ensures
        height == picker_height(option_view(*picker)),
        height <= 7,
{
    let count: usize = match picker {
        Some(Picker::Skills(picker)) => picker.items.len(),
        Some(Picker::Commands(picker)) => picker.items.len(),
        None => return 0,
    };
    if count < 1 {
        2
    } else if count > 6 {
        7
    } else {
        count as u16 + 1
    }
}

/// The rows of a picker in an area.
pub open spec fn picker_rows(picker: PickerView, height: int) -> Seq<ScreenRowView> {
    match picker {
        PickerView::Skills { items, selected, loading } => skill_picker_rows(
            items,
            selected,
            loading,
            height,
        ),
        PickerView::Commands { commands, selected } => command_picker_rows(
            commands,
            selected,
            height,
        ),
    }
}

fn picker_lines(picker: &Picker, height: u16) -> (rows: Vec<ScreenRow>)
    ensures
        views(rows@) == picker_rows(picker@, height as int),
{
    match picker {
        Picker::Skills(picker) => skill_picker_lines(picker, height),
        Picker::Commands(picker) => command_picker_lines(picker, height),
    }
}

/// The hint at the bottom.
pub open spec fn hint_of(app: AppView) -> Seq<char> {
    if !app.composer_open {
        "Space compose · ↑↓ select · ? help · Esc twice quit"@
    } else if app.composer.target == ComposeTarget::Rename {
        "Enter save · Esc cancel"@
    } else {
        "$ skills · / commands · Tab switch · Enter send · Esc close"@
    }
}

/// The lines at the bottom: the notice and the hint.
#[verifier::opaque]
pub open spec fn footer_of(app: AppView, width: int) -> Seq<Seq<char>> {
    let hint = hint_rows("  "@ + hint_of(app), at_least_one(width));
    if app.notice.len() == 0 {
        hint
    } else {
        hint_rows("  "@ + app.notice, at_least_one(width)) + hint
    }
}

/// The lines at the bottom: the notice and the hint.
pub fn footer_lines(app: &App, width: usize) -> (lines: Vec<String>)
    ensures
        texts(lines@) == footer_of(app@, width as int),
{
    reveal(footer_of);
    let columns: usize = if width == 0 {
        1
    } else {
        width
    };
    let hint = if !app.composer_open() {
        "Space compose · ↑↓ select · ? help · Esc twice quit"
    } else if app.composer().target == ComposeTarget::Rename {
        "Enter save · Esc cancel"
    } else {
        "$ skills · / commands · Tab switch · Enter send · Esc close"
    };
    let mut hints = wrapped_hint_lines(concat_text("  ", hint).as_str(), columns);
    if text_is_empty(app.notice()) {
        return hints;
    }
    let mut lines = wrapped_hint_lines(concat_text("  ", app.notice()).as_str(), columns);
    let ghost first = texts(lines@);
    let ghost second = texts(hints@);
    lines.append(&mut hints);
    assert(texts(lines@) =~= first + second);
    lines
}

/// The rows at the bottom, in an area.
pub open spec fn footer_rows(lines: Seq<Seq<char>>, height: int) -> Seq<ScreenRowView> {
    Seq::new(min_int(lines.len() as int, height) as nat, |i: int| dim_row(lines[i]))
}

fn footer_row_lines(lines: &Vec<String>, height: u16) -> (rows: Vec<ScreenRow>)
    ensures
        views(rows@) == footer_rows(texts(lines@), height as int),
{
    let ghost all = texts(lines@);
    let mut rows: Vec<ScreenRow> = Vec::new();
    let mut i: usize = 0;
    while i < lines.len() && i < height as usize
        invariant
            i <= lines.len(),
            i <= height,
            all == texts(lines@),
            rows.len() == i,
            forall|j: int| 0 <= j < i ==> (#[trigger] rows@[j])@ == dim_row(all[j]),
        decreases lines.len() - i,
    {
        rows.push(row1(styled(lines[i].as_str(), dim_style())));
        i += 1;
    }
    assert(views(rows@) =~= footer_rows(all, height as int));
    rows
}

/// The heights of the parts of the screen.
pub struct Heights {
    pub sessions: int,
    pub separator: int,
    pub picker: int,
    pub composer_separator: int,
    pub composer: int,
    pub footer: int,
}

impl Heights {
    /// The parts from top to bottom. The preview takes what is left.
    pub open spec fn rows(self) -> Seq<Option<u16>> {
        seq![
            Some(self.sessions as u16),
            Some(self.separator as u16),
            None,
            Some(self.picker as u16),
            Some(self.composer_separator as u16),
            Some(self.composer as u16),
            Some(self.footer as u16),
        ]
    }
}

/// The rows that the composer may take.
pub open spec fn composer_limit(height: int, separator: int, footer: int) -> int {
    at_least_one(height - 2 * separator - footer - 2)
}

/// The heights of the parts of the screen, where the footer has a number of lines.
#[verifier::opaque]
pub open spec fn heights_of(app: AppView, area: Rect, picker: int, footer_lines: int) -> Heights {
    let height = area.height as int;
    let separator = if height >= 6 {
        1int
    } else {
        0
    };
    let footer = min_int(min_int(footer_lines, 3), max_int(height - 1, 0));
    let composer = if app.composer_open {
        box_rows(
            prefix_of(app.composer.target, app.is_asked()),
            app.composer.text,
            area.width as int,
            composer_limit(height, separator, footer),
        )
    } else {
        0
    };
    let composer_separator = if app.composer_open {
        separator
    } else {
        0
    };
    let available = max_int(
        height - composer - picker - footer - separator - composer_separator,
        0,
    );
    let sessions = min_int(
        min_int(app.sessions.len() as int % 65536, at_least_one(available / 3)),
        available,
    );
    Heights { sessions, separator, picker, composer_separator, composer, footer }
}

proof fn lemma_box_rows(prefix: Seq<char>, text: Seq<char>, width: int, maximum: int)
    ensures
        1 <= box_rows(prefix, text, width, maximum) <= at_least_one(maximum),
{
}

proof fn lemma_seven_rows(heights: Heights)
    requires
        0 <= heights.sessions <= u16::MAX,
        0 <= heights.separator <= u16::MAX,
        0 <= heights.picker <= u16::MAX,
        0 <= heights.composer_separator <= u16::MAX,
        0 <= heights.composer <= u16::MAX,
        0 <= heights.footer <= u16::MAX,
    ensures
        open_rows(heights.rows()) == 1,
        fixed_height(heights.rows()) == heights.sessions + heights.separator + heights.picker
            + heights.composer_separator + heights.composer + heights.footer,
{
    let rows = heights.rows();
    reveal_with_fuel(open_rows, 8);
    reveal_with_fuel(fixed_height, 8);
    assert(rows.drop_last() =~= rows.take(6));
    assert(rows.take(6).drop_last() =~= rows.take(5));
    assert(rows.take(5).drop_last() =~= rows.take(4));
    assert(rows.take(4).drop_last() =~= rows.take(3));
    assert(rows.take(3).drop_last() =~= rows.take(2));
    assert(rows.take(2).drop_last() =~= rows.take(1));
    assert(rows.take(1).drop_last() =~= rows.take(0));
}

/// Without a picker, the parts of the dashboard fit on every screen, and the
/// preview takes what the others leave.
pub proof fn law_the_parts_fit_on_the_screen(app: AppView, area: Rect, footer_lines: int)
    requires
        area.height > 0,
        footer_lines >= 0,
    ensures
        rows_fit(heights_of(app, area, 0, footer_lines).rows(), area.height as int),
{
    reveal(heights_of);
    let height = area.height as int;
    let separator = if height >= 6 {
        1int
    } else {
        0
    };
    let footer = min_int(min_int(footer_lines, 3), max_int(height - 1, 0));
    lemma_box_rows(
        prefix_of(app.composer.target, app.is_asked()),
        app.composer.text,
        area.width as int,
        composer_limit(height, separator, footer),
    );
    lemma_seven_rows(heights_of(app, area, 0, footer_lines));
}

fn footer_height_of(height: u16, lines: usize) -> (footer: u16)
    ensures
        footer == min_int(min_int(lines as int, 3), max_int(height - 1, 0)),
        footer <= 3,
{
    let wanted: u16 = if lines < 3 {
        lines as u16
    } else {
        3
    };
    let most: u16 = height.saturating_sub(1);
    if wanted < most {
        wanted
    } else {
        most
    }
}

fn composer_limit_of(height: u16, separator: u16, footer: u16) -> (limit: u16)
    requires
        separator <= 1,
    ensures
        limit == composer_limit(height as int, separator as int, footer as int),
{
    let room: u16 = height.saturating_sub(separator + separator).saturating_sub(
        footer,
    ).saturating_sub(2);
    if room == 0 {
        1
    } else {
        room
    }
}

fn composer_rows_of(app: &App, width: u16, limit: u16) -> (rows: u16)
    ensures
        rows == (if app@.composer_open {
            box_rows(
                prefix_of(app@.composer.target, app@.is_asked()),
                app@.composer.text,
                width as int,
                limit as int,
            )
        } else {
            0
        }),
{
    if !app.composer_open() {
        return 0;
    }
    let prefix = composer_prefix(app.composer().target, app.selected_has_pending_request());
    composer_box_height(
        prefix.as_str(),
        app.composer().text.as_str(),
        width as usize,
        limit,
    )
}

/// The rows of the sessions, where the other parts leave some.
fn session_height_of(count: usize, available: u16) -> (rows: u16)
    ensures
        rows == min_int(
            min_int(count as int % 65536, at_least_one(available as int / 3)),
            available as int,
        ),
{
    let third: u16 = if available / 3 == 0 {
        1
    } else {
        available / 3
    };
    let count: u16 = (count % 65536) as u16;
    let shown: u16 = if count < third {
        count
    } else {
        third
    };
    if shown < available {
        shown
    } else {
        available
    }
}

/// The heights of the parts of the screen.
fn plan_rows(app: &App, area: Rect, picker: &Option<Picker>, footer_count: usize) -> (rows: Vec<
    Option<u16>,
>)
    ensures
        rows@ == heights_of(
            app@,
            area,
            picker_height(option_view(*picker)),
            footer_count as int,
        ).rows(),
{
    reveal(heights_of);
    let height: u16 = area.height;
    let separator: u16 = if height >= 6 {
        1
    } else {
        0
    };
    let footer: u16 = footer_height_of(height, footer_count);
    let limit: u16 = composer_limit_of(height, separator, footer);
    let composer: u16 = composer_rows_of(app, area.width, limit);
    let composer_separator: u16 = if app.composer_open() {
        separator
    } else {
        0
    };
    let picker_rows: u16 = picker_height_of(picker);
    let available: u16 = height.saturating_sub(composer).saturating_sub(
        picker_rows,
    ).saturating_sub(footer).saturating_sub(separator).saturating_sub(composer_separator);
    let sessions: u16 = session_height_of(app.sessions().len(), available);
    let mut rows: Vec<Option<u16>> = Vec::new();
    rows.push(Some(sessions));
    rows.push(Some(separator));
    rows.push(None);
    rows.push(Some(picker_rows));
    rows.push(Some(composer_separator));
    rows.push(Some(composer));
    rows.push(Some(footer));
    let ghost heights = heights_of(
        app@,
        area,
        picker_height(option_view(*picker)),
        footer_count as int,
    );
    assert(heights.sessions == sessions);
    assert(rows@ =~= heights.rows());
    rows
}

/// A style over a background.
pub open spec fn over(style: Style, background: Color) -> Style {
    Style { bg: Some(background), ..style }
}

/// A row over a background.
pub open spec fn row_over(spans: Seq<SpanView>, background: Color) -> ScreenRowView {
    ScreenRowView {
        spans: Seq::new(
            spans.len(),
            |i: int| SpanView { style: over(spans[i].style, background), ..spans[i] },
        ),
        style: over(Style::plain(), background),
    }
}

/// A row over a background.
pub fn line_with_bg(line: &StyledLine, background: Color) -> (row: ScreenRow)
    ensures
        row@ == row_over(line@, background),
{
    let mut spans: Vec<StyledSpan> = Vec::new();
    let mut i: usize = 0;
    while i < line.spans.len()
        invariant
            i <= line.spans.len(),
            spans.len() == i,
            forall|j: int|
                0 <= j < i ==> (#[trigger] spans@[j])@ == (SpanView {
                    style: over(line@[j].style, background),
                    ..line@[j]
                }),
        decreases line.spans.len() - i,
    {
        let span = &line.spans[i];
        assert(line@[i as int] == span@);
        spans.push(
            StyledSpan {
                text: span.text.clone(),
                style: span.style.bg(background),
                link: copy_option(&span.link),
            },
        );
        i += 1;
    }
    let row = ScreenRow { spans, style: Style::default().bg(background) };
    assert(row@.spans =~= row_over(line@, background).spans);
    row
}

/// The rows of the editor from one of them on, in an area of some rows.
pub open spec fn editor_rows(
    rows: Seq<Seq<SpanView>>,
    first: int,
    height: int,
    background: Color,
) -> Seq<ScreenRowView> {
    Seq::new(
        height as nat,
        |i: int|
            row_over(
                if first + i < rows.len() {
                    rows[first + i]
                } else {
                    seq![]
                },
                background,
            ),
    )
}

fn editor_row_lines(
    lines: &Vec<StyledLine>,
    first: usize,
    height: u16,
    background: Color,
) -> (rows: Vec<ScreenRow>)
    requires
        first < lines.len(),
    ensures
        views(rows@) == editor_rows(views(lines@), first as int, height as int, background),
{
    let ghost all = views(lines@);
    let mut rows: Vec<ScreenRow> = Vec::new();
    let mut i: u16 = 0;
    while i < height
        invariant
            i <= height,
            first < lines.len(),
            all == views(lines@),
            rows.len() == i,
            forall|j: int|
                0 <= j < i ==> (#[trigger] rows@[j])@ == editor_rows(
                    all,
                    first as int,
                    height as int,
                    background,
                )[j],
        decreases height - i,
    {
        let row = if (i as usize) < lines.len() - first {
            line_with_bg(&lines[first + i as usize], background)
        } else {
            line_with_bg(&StyledLine::default(), background)
        };
        rows.push(row);
        i += 1;
    }
    assert(views(rows@) =~= editor_rows(all, first as int, height as int, background));
    rows
}

/// The rows of the composer's title.
pub open spec fn title_rows(app: AppView, width: int, accent: Color, background: Color) -> Seq<
    ScreenRowView,
> {
    let session = app.selected_session();
    let lamp = title_has_lamp(app.composer.target, session);
    let title = span(
        truncated(title_label(app.composer.target, session), title_room(lamp, width)),
        over(Style::colored(accent), background),
    );
    let margin = span("  "@, over(Style::plain(), background));
    seq![
        ScreenRowView::of(
            if lamp {
                seq![margin, span("● "@, over(Style::colored(Color::Green), background)), title]
            } else {
                seq![margin, title]
            },
        ),
    ]
}

fn title_lines(app: &App, width: u16, accent: Color, background: Color) -> (rows: Vec<ScreenRow>)
    ensures
        views(rows@) == title_rows(app@, width as int, accent, background),
{
    let (lamp, title) = composer_context_title(
        app.composer().target,
        app.selected_session(),
        width as usize,
    );
    let margin = styled("  ", Style::default().bg(background));
    let label = styled(title.as_str(), colored(accent).bg(background));
    let row = if lamp {
        row3(margin, styled("● ", colored(Color::Green).bg(background)), label)
    } else {
        row2(margin, label)
    };
    let mut rows: Vec<ScreenRow> = Vec::new();
    rows.push(row);
    assert(views(rows@) =~= title_rows(app@, width as int, accent, background));
    rows
}

/// The part of the composer's area for its title.
pub open spec fn title_area(area: Rect) -> Rect {
    Rect {
        height: if area.height > 1 {
            1
        } else {
            0
        },
        ..area
    }
}

/// The part of the composer's area for its text.
pub open spec fn editor_area(area: Rect) -> Rect {
    if area.height > 1 {
        Rect { y: (area.y + 1) as u16, height: (area.height - 1) as u16, ..area }
    } else {
        area
    }
}

fn split_composer(area: Rect) -> (parts: (Rect, Rect))
    requires
        on_screen(area),
        area.height > 0,
    ensures
        parts.0 == title_area(area),
        parts.1 == editor_area(area),
{
    let title: u16 = if area.height > 1 {
        1
    } else {
        0
    };
    let mut rows: Vec<Option<u16>> = Vec::new();
    rows.push(Some(title));
    rows.push(Some(area.height - title));
    proof {
        reveal_with_fuel(open_rows, 3);
        reveal_with_fuel(fixed_height, 3);
        reveal_with_fuel(height_before, 3);
        assert(rows@.drop_last().drop_last() =~= seq![]);
        assert(rows@.drop_last().last() == Some(title));
    }
    let areas = split_rows(area, &rows);
    (areas[0], areas[1])
}

/// The composer as it is drawn: its rows, the first one in sight, and the cursor.
pub open spec fn composer_first_row(cursor: Cell, height: int) -> int {
    max_int(cursor.row - (height - 1), 0)
}

impl Drawing {
    /// The composer in an area.
    #[verifier::opaque]
    pub open spec fn composer(self, area: Rect, palette: TerminalPalette) -> Drawing {
        let composer = self.app.composer;
        let asked = self.app.is_asked();
        let prefix = prefix_of(composer.target, asked);
        let accent = accent_of(composer.target, asked);
        let background = tint(
            palette.background,
            palette.accent(ansi_of(composer.target, asked)),
        );
        let editor = editor_area(area);
        let cursor = cursor_of(
            prefix + composer.text,
            byte_len(prefix) + composer.cursor,
            area.width as int,
        );
        let first = composer_first_row(cursor, editor.height as int);
        Drawing {
            app: self.app.laid_out(area.width as int, display_width(prefix)),
            screen: self.screen.panel(
                title_area(area),
                title_rows(self.app, area.width as int, accent, background),
                Some(background),
            ).panel(
                editor,
                editor_rows(
                    composer_rows(
                        prefix,
                        composer.text,
                        composer.tokens,
                        over(Style::bold_colored(accent), background),
                        area.width as int,
                    ),
                    first,
                    editor.height as int,
                    background,
                ),
                Some(background),
            ).pointing(
                min_int(editor.x + cursor.column, editor.end_column() - 1),
                min_int(editor.y + cursor.row - first, editor.end_row() - 1),
            ),
        }
    }
}

proof fn lemma_cursor_column(clusters: Seq<Seq<char>>, count: int, width: int)
    requires
        width >= 1,
    ensures
        0 <= cell_after(origin(), clusters, count, width).column < width,
        0 <= cell_after(origin(), clusters, count, width).row,
    decreases count,
{
    if count > 0 {
        lemma_cursor_column(clusters, count - 1, width);
    }
}

proof fn lemma_cursor_in_width(text: Seq<char>, byte: int, width: int)
    requires
        width >= 1,
    ensures
        0 <= cursor_of(text, byte, width).column < width,
{
    let clusters = grapheme_clusters(text);
    lemma_cursor_column(clusters, clusters.len() as int, width);
    lemma_cell_at(clusters, clusters.len() as int, byte, width);
}

proof fn lemma_cell_at(clusters: Seq<Seq<char>>, count: int, byte: int, width: int)
    requires
        width >= 1,
    ensures
        cell_at(clusters, count, byte, width) matches Some(cell) ==> 0 <= cell.column < width,
    decreases count,
{
    if count > 0 {
        lemma_cursor_column(clusters, count - 1, width);
        lemma_cell_at(clusters, count - 1, byte, width);
    }
}

fn lay_out(app: &mut App, width: u16, prefix: &str)
    requires
        old(app)@.wf(),
    ensures
        final(app)@ == old(app)@.laid_out(width as int, display_width(prefix@)),
        final(app)@.wf(),
{
    reveal(AppView::laid_out);
    app.set_composer_layout(width as usize, text_width(prefix));
}

fn render_composer(screen: &mut Screen, area: Rect, app: &mut App, palette: &TerminalPalette)
    requires
        old(app)@.wf(),
        on_screen(area),
        !has_no_cell(area),
    ensures
        drawing(final(app)@, final(screen)@) == drawing(old(app)@, old(screen)@).composer(
            area,
            *palette,
        ),
        final(app)@.wf(),
{
    reveal(Drawing::composer);
    let composer = app.composer().clone();
    let asked = app.selected_has_pending_request();
    let prefix = composer_prefix(composer.target, asked);
    let accent = composer_accent(composer.target, asked);
    let background = composer_background(composer.target, asked, palette);
    let style = bold_colored(accent).bg(background);
    proof {
        lemma_is_offset(composer@.text, composer@.cursor);
    }
    let (lines, row, column) = styled_composer_layout(
        prefix.as_str(),
        composer.text.as_str(),
        composer.cursor,
        &composer.tokens,
        style,
        area.width as usize,
    );
    proof {
        lemma_cursor_in_width(
            prefix@ + composer@.text,
            byte_len(prefix@) + composer@.cursor,
            area.width as int,
        );
    }
    let (title, editor) = split_composer(area);
    let first: usize = row.saturating_sub((editor.height - 1) as usize);
    screen.panel(title, title_lines(app, area.width, accent, background), Some(background));
    screen.panel(
        editor,
        editor_row_lines(&lines, first, editor.height, background),
        Some(background),
    );
    let y: u16 = editor.y + (row - first) as u16;
    let x: u16 = editor.x + column as u16;
    screen.point(x, y);
    lay_out(app, area.width, prefix.as_str());
}

/// The part of the screen that the menu takes: a margin of one row above and below
/// where there is room.
pub open spec fn menu_area(area: Rect) -> Rect {
    if area.height > 4 {
        Rect { y: (area.y + 1) as u16, height: (area.height - 2) as u16, ..area }
    } else {
        area
    }
}

/// The row of a preview level in the settings.
pub open spec fn level_index(verbosity: PreviewVerbosity) -> int {
    match verbosity {
        PreviewVerbosity::Full => 0,
        PreviewVerbosity::Progress => 1,
        PreviewVerbosity::Final => 2,
    }
}

/// The screen with the settings.
#[verifier::opaque]
pub open spec fn settings_screen(verbosity: PreviewVerbosity, area: Rect) -> ScreenView {
    let panel = menu_area(area);
    let drawn = ScreenView::blank().panel(
        panel,
        settings_rows(verbosity, panel.height as int),
        None,
    );
    let row = screen_limit(panel.y + 3 + level_index(verbosity));
    if row < panel.end_row() {
        drawn.pointing(min_int(panel.x as int, max_int(panel.end_column() - 1, 0)), row)
    } else {
        drawn
    }
}

/// The screen with the search for a session.
#[verifier::opaque]
pub open spec fn resume_screen(
    query: Seq<char>,
    items: Seq<SessionView>,
    selected: int,
    area: Rect,
) -> ScreenView {
    let panel = menu_area(area);
    let columns = screen_columns(display_width("Find › "@) + display_width(query));
    ScreenView::blank().panel(
        panel,
        resume_rows(query, items, selected, panel.width as int, panel.height as int),
        None,
    ).pointing(
        min_int(screen_limit(panel.x + columns), max_int(panel.end_column() - 1, 0)),
        min_int(screen_limit(panel.y + 2), max_int(panel.end_row() - 1, 0)),
    )
}

fn menu_panel(area: Rect) -> (panel: Rect)
    requires
        on_screen(area),
    ensures
        panel == menu_area(area),
        on_screen(panel),
{
    if area.height > 4 {
        Rect { x: area.x, y: area.y + 1, width: area.width, height: area.height - 2 }
    } else {
        area
    }
}

fn render_settings(verbosity: PreviewVerbosity, area: Rect) -> (screen: Screen)
    requires
        on_screen(area),
    ensures
        screen@ == settings_screen(verbosity, area),
{
    reveal(settings_screen);
    let panel = menu_panel(area);
    let mut screen = Screen::default();
    screen.panel(panel, settings_lines(verbosity, panel.height), None);
    let index: u16 = match verbosity {
        PreviewVerbosity::Full => 0,
        PreviewVerbosity::Progress => 1,
        PreviewVerbosity::Final => 2,
    };
    let row: u16 = panel.y.saturating_add(3 + index);
    if row < panel.bottom() {
        let last: u16 = panel.right().saturating_sub(1);
        let column: u16 = if panel.x < last {
            panel.x
        } else {
            last
        };
        screen.point(column, row);
    }
    screen
}

/// The columns of two texts, as a screen coordinate holds them.
fn joined_columns(first: &str, second: &str) -> (columns: u16)
    ensures
        columns == screen_columns(display_width(first@) + display_width(second@)),
{
    let a: usize = text_width(first);
    let b: usize = text_width(second);
    assert((a + b) as int % 65536 == (a as int % 65536 + b as int % 65536) % 65536) by (nonlinear_arith);
    let sum: usize = (a % 65536 + b % 65536) % 65536;
    sum as u16
}

fn render_resume(picker: &HistoryPickerView, area: Rect) -> (screen: Screen)
    requires
        on_screen(area),
    ensures
        screen@ == resume_screen(
            picker.query@,
            views(picker.items@),
            picker.selected as int,
            area,
        ),
{
    reveal(resume_screen);
    let panel = menu_panel(area);
    let mut screen = Screen::default();
    screen.panel(panel, resume_lines(picker, panel.width, panel.height), None);
    let columns: u16 = joined_columns("Find › ", picker.query.as_str());
    let wanted: u16 = panel.x.saturating_add(columns);
    let last: u16 = panel.right().saturating_sub(1);
    let x: u16 = if wanted < last {
        wanted
    } else {
        last
    };
    let row: u16 = panel.y.saturating_add(2);
    let bottom: u16 = panel.bottom().saturating_sub(1);
    let y: u16 = if row < bottom {
        row
    } else {
        bottom
    };
    screen.point(x, y);
    screen
}

/// The screen with the menu.
#[verifier::opaque]
pub open spec fn menu_screen(app: AppView, menu: MenuView, area: Rect) -> ScreenView {
    match menu.tab {
        MenuTab::Settings => settings_screen(menu.verbosity, area),
        MenuTab::Resume => resume_screen(menu.query, app.offered(), menu.selected, area),
    }
}

fn render_menu(app: &App, area: Rect) -> (screen: Option<Screen>)
    requires
        on_screen(area),
    ensures
        match screen {
            Some(screen) => app@.menu matches Some(menu) && screen@ == menu_screen(
                app@,
                menu,
                area,
            ),
            None => app@.menu is None,
        },
{
    reveal(menu_screen);
    match app.history_picker_view() {
        Some(picker) => match app.menu_tab() {
            MenuTab::Settings => Some(render_settings(app.settings_selection(), area)),
            MenuTab::Resume => Some(render_resume(&picker, area)),
        },
        None => None,
    }
}

/// The screen with the help.
pub open spec fn help_screen(area: Rect) -> ScreenView {
    ScreenView::blank().panel(area, help_rows(), None)
}

fn render_help(area: Rect) -> (screen: Screen)
    ensures
        screen@ == help_screen(area),
{
    let mut screen = Screen::default();
    screen.panel(area, help_lines(), None);
    screen
}

impl Drawing {
    /// A picker, where there is one.
    #[verifier::opaque]
    pub open spec fn picker(self, picker: Option<PickerView>, area: Rect) -> Drawing {
        match picker {
            Some(picker) => Drawing {
                screen: self.screen.panel(area, picker_rows(picker, area.height as int), None),
                ..self
            },
            None => self,
        }
    }

    /// The open composer below a line.
    #[verifier::opaque]
    pub open spec fn open_composer(
        self,
        above: Rect,
        area: Rect,
        palette: TerminalPalette,
    ) -> Drawing {
        if self.app.composer_open {
            let lined = Drawing {
                screen: self.screen.panel(above, separator_rows(above), None),
                ..self
            };
            if has_no_cell(area) {
                lined
            } else {
                lined.composer(area, palette)
            }
        } else {
            self
        }
    }

    /// Sessions, a line, and the preview.
    #[verifier::opaque]
    pub open spec fn upper(self, areas: Seq<Rect>, palette: TerminalPalette) -> Drawing {
        let listed = self.sessions(areas[0]);
        Drawing {
            screen: listed.screen.panel(areas[1], separator_rows(areas[1]), None),
            ..listed
        }.preview(areas[2], palette)
    }

    /// All parts of the dashboard, in their areas.
    #[verifier::opaque]
    pub open spec fn parts(
        self,
        areas: Seq<Rect>,
        palette: TerminalPalette,
        picker: Option<PickerView>,
        footer: Seq<Seq<char>>,
    ) -> Drawing {
        let drawn = self.upper(areas, palette).picker(picker, areas[3]).open_composer(
            areas[4],
            areas[5],
            palette,
        );
        Drawing {
            screen: drawn.screen.panel(
                areas[6],
                footer_rows(footer, areas[6].height as int),
                None,
            ),
            ..drawn
        }
    }
}

fn render_picker(screen: &mut Screen, area: Rect, picker: &Option<Picker>, app: &App)
    ensures
        drawing(app@, final(screen)@) == drawing(app@, old(screen)@).picker(
            option_view(*picker),
            area,
        ),
{
    reveal(Drawing::picker);
    if let Some(picker) = picker {
        screen.panel(area, picker_lines(picker, area.height), None);
    }
}

fn render_open_composer(
    screen: &mut Screen,
    above: Rect,
    area: Rect,
    app: &mut App,
    palette: &TerminalPalette,
)
    requires
        old(app)@.wf(),
        on_screen(area),
    ensures
        drawing(final(app)@, final(screen)@) == drawing(old(app)@, old(screen)@).open_composer(
            above,
            area,
            *palette,
        ),
        final(app)@.wf(),
{
    reveal(Drawing::open_composer);
    if !app.composer_open() {
        return;
    }
    render_separator(screen, above);
    if !area.is_empty() {
        render_composer(screen, area, app, palette);
    }
}

fn render_upper(screen: &mut Screen, areas: &Vec<Rect>, app: &mut App, palette: &TerminalPalette)
    requires
        old(app)@.wf(),
        areas.len() == 7,
    ensures
        drawing(final(app)@, final(screen)@) == drawing(old(app)@, old(screen)@).upper(
            areas@,
            *palette,
        ),
        final(app)@.wf(),
{
    reveal(Drawing::upper);
    reveal(Drawing::sessions);
    render_sessions(screen, areas[0], app);
    render_separator(screen, areas[1]);
    render_messages(screen, areas[2], app, palette);
}

/// Draws the parts of the dashboard in their areas: sessions, a line, the preview,
/// the picker, a line, the composer and the footer.
pub fn draw(
    app: &mut App,
    areas: &Vec<Rect>,
    palette: &TerminalPalette,
    picker: &Option<Picker>,
    footer: &Vec<String>,
) -> (screen: Screen)
    requires
        old(app)@.wf(),
        areas.len() == 7,
        on_screen(areas@[5]),
    ensures
        drawing(final(app)@, screen@) == drawing(old(app)@, ScreenView::blank()).parts(
            areas@,
            *palette,
            option_view(*picker),
            texts(footer@),
        ),
        final(app)@.wf(),
{
    reveal(Drawing::parts);
    let mut screen = Screen::default();
    render_upper(&mut screen, areas, app, palette);
    render_picker(&mut screen, areas[3], picker, app);
    render_open_composer(&mut screen, areas[4], areas[5], app, palette);
    screen.panel(areas[6], footer_row_lines(footer, areas[6].height), None);
    screen
}

/// What is drawn while neither the help nor the menu is open: the parts in areas
/// that divide the screen by their heights.
pub open spec fn drawn_parts(
    app: AppView,
    area: Rect,
    palette: TerminalPalette,
    picker: Option<PickerView>,
    after: AppView,
    screen: ScreenView,
) -> bool {
    let footer = footer_of(app, area.width as int);
    let rows = heights_of(app, area, picker_height(picker), footer.len() as int).rows();
    exists|areas: Seq<Rect>|
        #[trigger] divides(areas, rows, area) && drawing(after, screen) == drawing(
            app,
            ScreenView::blank(),
        ).parts(areas, palette, picker, footer)
}

/// Draws the dashboard, given the commands to choose from while one is typed.
pub fn render(
    app: &mut App,
    area: Rect,
    palette: &TerminalPalette,
    commands: Option<SlashCommandPickerView>,
) -> (screen: Screen)
    requires
        old(app)@.wf(),
        on_screen(area),
    ensures
        final(app)@.wf(),
        ({
            let before = old(app)@;
            if has_no_cell(area) {
                screen@ == ScreenView::blank() && final(app)@ == before.unpreviewed()
            } else if before.help_open {
                screen@ == help_screen(area) && final(app)@ == before.unpreviewed()
            } else {
                match before.menu {
                    Some(menu) => screen@ == menu_screen(before, menu, area) && final(app)@
                        == before.unpreviewed(),
                    None => drawn_parts(
                        before,
                        area,
                        *palette,
                        picker_shown(before, commands),
                        final(app)@,
                        screen@,
                    ),
                }
            }
        }),
{
    if area.is_empty() {
        hide_preview(app);
        return Screen::default();
    }
    if app.help_open() {
        hide_preview(app);
        return render_help(area);
    }
    if let Some(screen) = render_menu(app, area) {
        hide_preview(app);
        return screen;
    }
    let ghost before = app@;
    let ghost shown = picker_shown(before, commands);
    let picker = picker_of(app, commands);
    let footer = footer_lines(app, area.width as usize);
    let rows = plan_rows(app, area, &picker, footer.len());
    let areas = split_rows(area, &rows);
    let screen = draw(app, &areas, palette, &picker, &footer);
    proof {
        let lines = footer_of(before, area.width as int);
        assert(lines.len() == footer.len());
        assert(divides(
            areas@,
            heights_of(before, area, picker_height(shown), lines.len() as int).rows(),
            area,
        ));
        assert(drawn_parts(before, area, *palette, shown, app@, screen@));
    }
    screen
}

fn hide_preview(app: &mut App)
    requires
        old(app)@.wf(),
    ensures
        final(app)@ == old(app)@.unpreviewed(),
        final(app)@.wf(),
{
    reveal(AppView::unpreviewed);
    app.clear_preview_surface();
}

} // verus!
