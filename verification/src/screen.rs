//! What the dashboard draws: panels of rows, the cursor and special cells.

use ratatui::layout::{Constraint, Layout};
use vstd::prelude::*;

use crate::cells::{
    area_links, emoji_cells, LinkCell, LinkView, osc8_cells, wide_rows, with_selection,
};
use crate::composer_view::at_least_one;
use crate::deck::request_slot;
use crate::labels::{max_int, min_int};
use crate::rows::{
    dim_style, message_lines, message_rows, row1, ScreenRow, ScreenRowView, session_line,
    session_row, span, styled,
};
use crate::selection::SelectionView;
use crate::state::{App, AppView};
use crate::style::{Color, Rect, Style};
use crate::styled::{add_text, plain, plain_lines, SpanView, StyledLine};
use crate::terminal_palette::{TerminalPalette, tint};
use crate::text::{repeat_char, repeat_text, texts};
use crate::views::{group_views, views};

verus! {

broadcast use group_views;

/// Rows in an area, over a background where there is one.
#[derive(Debug)]
pub struct Panel {
    pub area: Rect,
    pub rows: Vec<ScreenRow>,
    pub background: Option<Color>,
}

/// The mathematical form of a panel.
#[verifier::ext_equal]
pub struct PanelView {
    pub area: Rect,
    pub rows: Seq<ScreenRowView>,
    pub background: Option<Color>,
}

impl View for Panel {
    type V = PanelView;

    open spec fn view(&self) -> PanelView {
        PanelView { area: self.area, rows: views(self.rows@), background: self.background }
    }
}

/// All that is drawn: panels one over the other, the place of the cursor, the
/// cells that hold a sign of two columns, and the cells that hold links.
#[derive(Debug)]
pub struct Screen {
    pub panels: Vec<Panel>,
    pub cursor: Option<(u16, u16)>,
    pub wide_cells: Vec<(u16, u16)>,
    pub links: Vec<LinkCell>,
}

/// The mathematical form of a screen.
#[verifier::ext_equal]
pub struct ScreenView {
    pub panels: Seq<PanelView>,
    pub cursor: Option<(u16, u16)>,
    pub wide_cells: Seq<(u16, u16)>,
    pub links: Seq<LinkView>,
}

impl View for Screen {
    type V = ScreenView;

    open spec fn view(&self) -> ScreenView {
        ScreenView {
            panels: views(self.panels@),
            cursor: self.cursor,
            wide_cells: self.wide_cells@,
            links: views(self.links@),
        }
    }
}

impl Default for Screen {
    fn default() -> (screen: Screen)
        ensures
            screen@ == ScreenView::blank(),
    {
        let screen = Screen {
            panels: Vec::new(),
            cursor: None,
            wide_cells: Vec::new(),
            links: Vec::new(),
        };
        assert(screen@ =~= ScreenView::blank());
        screen
    }
}

/// The area lies on the screen.
pub open spec fn on_screen(area: Rect) -> bool {
    area.x + area.width <= u16::MAX && area.y + area.height <= u16::MAX
}

/// The area has no cell.
pub open spec fn has_no_cell(area: Rect) -> bool {
    area.width == 0 || area.height == 0
}

/// The heights of rows, without those that take what is left.
pub open spec fn fixed_height(rows: Seq<Option<u16>>) -> int
    decreases rows.len(),
{
    if rows.len() == 0 {
        0
    } else {
        fixed_height(rows.drop_last()) + match rows.last() {
            Some(height) => height as int,
            None => 0,
        }
    }
}

/// The number of rows that take what is left.
pub open spec fn open_rows(rows: Seq<Option<u16>>) -> int
    decreases rows.len(),
{
    if rows.len() == 0 {
        0
    } else {
        open_rows(rows.drop_last()) + if rows.last() is None {
            1int
        } else {
            0
        }
    }
}

/// Whether rows fill a height exactly, with at most one that takes what is left.
pub open spec fn rows_fit(rows: Seq<Option<u16>>, height: int) -> bool {
    if open_rows(rows) == 1 {
        fixed_height(rows) <= height
    } else {
        open_rows(rows) == 0 && fixed_height(rows) == height
    }
}

/// The height of a row, where what is left is known.
pub open spec fn row_height(row: Option<u16>, left: int) -> int {
    match row {
        Some(height) => height as int,
        None => left,
    }
}

/// The heights of the first `count` rows together.
pub open spec fn height_before(rows: Seq<Option<u16>>, count: int, left: int) -> int
    decreases count,
{
    if count <= 0 {
        0
    } else {
        height_before(rows, count - 1, left) + row_height(rows[count - 1], left)
    }
}

/// Areas one below the other.
pub open spec fn stacked(rows: Seq<Option<u16>>, area: Rect) -> Seq<Rect> {
    let left = area.height - fixed_height(rows);
    Seq::new(
        rows.len(),
        |i: int|
            Rect {
                x: area.x,
                y: (area.y + height_before(rows, i, left)) as u16,
                width: area.width,
                height: row_height(rows[i], left) as u16,
            },
    )
}

/// What is known of areas that rows divide an area into.
pub open spec fn divides(areas: Seq<Rect>, rows: Seq<Option<u16>>, area: Rect) -> bool {
    &&& areas.len() == rows.len()
    &&& forall|i: int|
        0 <= i < areas.len() ==> {
            &&& (#[trigger] areas[i]).x == area.x
            &&& areas[i].width == area.width
            &&& area.y <= areas[i].y
            &&& areas[i].y + areas[i].height <= area.y + area.height
        }
    &&& rows_fit(rows, area.height as int) ==> areas == stacked(rows, area)
}

/// `Layout::split` of `ratatui`, for rows one below the other: a height stands for
/// a `Length` constraint, and nothing for `Min(0)`. Each part has the columns of
/// the whole and lies within its rows. Where the rows fit, the parts lie one below
/// the other, each length is kept, and the one row without a length takes what is
/// left. Of rows that do not fit nothing more is stated: there a solver weighs the
/// lengths against each other, and it walks hash maps that each process seeds.
#[verifier::external_body]
pub(crate) fn split_rows(area: Rect, rows: &Vec<Option<u16>>) -> (areas: Vec<Rect>)
    requires
        on_screen(area),
    ensures
        divides(areas@, rows@, area),
{
    let lengths = rows.iter().map(|row| row.map_or(Constraint::Min(0), Constraint::Length));
    let whole = ratatui::layout::Rect::new(area.x, area.y, area.width, area.height);
    let parts = Layout::vertical(lengths).split(whole);
    parts.iter().map(|part| Rect::new(part.x, part.y, part.width, part.height)).collect()
}

impl ScreenView {
    /// Nothing is drawn.
    pub open spec fn blank() -> ScreenView {
        ScreenView { panels: seq![], cursor: None, wide_cells: seq![], links: seq![] }
    }

    /// One more panel, unless its area has no cell.
    #[verifier::opaque]
    pub open spec fn panel(
        self,
        area: Rect,
        rows: Seq<ScreenRowView>,
        background: Option<Color>,
    ) -> ScreenView {
        if has_no_cell(area) {
            self
        } else {
            ScreenView {
                panels: self.panels.push(PanelView { area, rows, background }),
                ..self
            }
        }
    }

    /// The cursor stands at a place.
    #[verifier::opaque]
    pub open spec fn pointing(self, x: int, y: int) -> ScreenView {
        ScreenView { cursor: Some((x as u16, y as u16)), ..self }
    }

    /// The special cells of some lines in an area.
    #[verifier::opaque]
    pub open spec fn special(self, area: Rect, lines: Seq<Seq<SpanView>>) -> ScreenView {
        let count = min_int(lines.len() as int, area.height as int);
        ScreenView {
            wide_cells: wide_rows(lines, count, area),
            links: area_links(lines, count, area),
            ..self
        }
    }
}

impl Screen {
    pub(crate) fn panel(&mut self, area: Rect, rows: Vec<ScreenRow>, background: Option<Color>)
        ensures
            final(self)@ == old(self)@.panel(area, views(rows@), background),
    {
        reveal(ScreenView::panel);
        if area.is_empty() {
            return;
        }
        self.panels.push(Panel { area, rows, background });
    }

    pub(crate) fn point(&mut self, x: u16, y: u16)
        ensures
            final(self)@ == old(self)@.pointing(x as int, y as int),
    {
        reveal(ScreenView::pointing);
        self.cursor = Some((x, y));
    }

    fn special(&mut self, area: Rect, lines: &Vec<StyledLine>)
        ensures
            final(self)@ == old(self)@.special(area, views(lines@)),
    {
        reveal(ScreenView::special);
        self.wide_cells = emoji_cells(area, lines);
        self.links = osc8_cells(area, lines);
    }
}

/// The rows of a line across an area.
pub open spec fn separator_rows(area: Rect) -> Seq<ScreenRowView> {
    seq![
        ScreenRowView::of(
            seq![
                span(repeat_char('─', area.width as nat), Style::colored(Color::DarkGray)),
            ],
        ),
    ]
}

fn separator_lines(area: Rect) -> (rows: Vec<ScreenRow>)
    ensures
        views(rows@) == separator_rows(area),
{
    let mut rows: Vec<ScreenRow> = Vec::new();
    rows.push(row1(styled(repeat_text('─', area.width as usize).as_str(), dim_style())));
    assert(views(rows@) =~= separator_rows(area));
    rows
}

/// The row of a session among those that the dashboard shows.
pub open spec fn row_of_session(app: AppView, index: int, width: int) -> ScreenRowView {
    let session = app.sessions[index];
    session_row(
        session,
        app.lifecycle.pinned.contains(session.id),
        index == app.selected_index(),
        app.confirmation(session.id),
        width,
    )
}

/// The first session that is shown, so that the selected one is in sight.
pub open spec fn first_session_shown(app: AppView, height: int) -> int {
    if app.selected_index() >= height {
        app.selected_index() + 1 - height
    } else {
        0
    }
}

/// The rows of the sessions in an area.
pub open spec fn session_rows(app: AppView, area: Rect) -> Seq<ScreenRowView> {
    let first = first_session_shown(app, area.height as int);
    Seq::new(
        min_int(app.sessions.len() - first, area.height as int) as nat,
        |i: int| row_of_session(app, first + i, area.width as int),
    )
}

fn session_lines(app: &App, area: Rect) -> (rows: Vec<ScreenRow>)
    requires
        area.height > 0,
    ensures
        views(rows@) == session_rows(app@, area),
{
    let selected: usize = app.selected_index();
    let height: usize = area.height as usize;
    let first: usize = if selected >= height {
        selected - (height - 1)
    } else {
        0
    };
    let mut rows: Vec<ScreenRow> = Vec::new();
    let mut i: usize = first;
    while i < app.sessions().len() && i - first < height
        invariant
            first <= i,
            i <= app@.sessions.len(),
            selected == app@.selected_index(),
            first == first_session_shown(app@, area.height as int),
            height == area.height,
            rows.len() == i - first,
            i - first <= height,
            forall|j: int|
                0 <= j < rows.len() ==> (#[trigger] rows@[j])@ == row_of_session(
                    app@,
                    first + j,
                    area.width as int,
                ),
        decreases app@.sessions.len() - i,
    {
        let session = &app.sessions()[i];
        assert(session@ == app@.sessions[i as int]);
        let row = session_line(
            session,
            app.is_pinned(session.id.as_str()),
            i == selected,
            app.ctrl_x_confirmation(session.id.as_str()),
            area.width as usize,
        );
        rows.push(row);
        i += 1;
    }
    assert(views(rows@) =~= session_rows(app@, area));
    rows
}

/// One dim line.
pub open spec fn dim_line(text: Seq<char>) -> Seq<Seq<SpanView>> {
    seq![add_text(seq![], text, Style::colored(Color::DarkGray), None)]
}

/// The lines of the preview before they are scrolled.
#[verifier::opaque]
pub open spec fn preview_lines(app: AppView, width: int) -> Seq<Seq<SpanView>> {
    let lines = match app.selected_session() {
        Some(session) => if session.messages.len() > 0 {
            message_rows(session.messages, width, app.lifecycle.verbosity)
        } else if session.history_loaded {
            dim_line("  No conversation content yet"@)
        } else {
            dim_line("  Loading conversation…"@)
        },
        None => dim_line(
            "  New tasks will appear here and keep running after you close Codeck."@,
        ),
    };
    if lines.len() == 0 {
        seq![seq![]]
    } else {
        lines
    }
}

fn dim_lines(text: &str) -> (lines: Vec<StyledLine>)
    ensures
        views(lines@) == dim_line(text@),
{
    let mut line = StyledLine::default();
    line.push_str(text, dim_style());
    let mut lines: Vec<StyledLine> = Vec::new();
    lines.push(line);
    assert(views(lines@) =~= dim_line(text@));
    lines
}

fn preview_content(app: &App, width: usize) -> (lines: Vec<StyledLine>)
    ensures
        views(lines@) == preview_lines(app@, width as int),
        lines.len() > 0,
{
    reveal(preview_lines);
    let mut lines = match app.selected_session() {
        Some(session) => if session.messages.len() > 0 {
            message_lines(&session.messages, width, app.preview_verbosity())
        } else if session.history_loaded {
            dim_lines("  No conversation content yet")
        } else {
            dim_lines("  Loading conversation…")
        },
        None => dim_lines(
            "  New tasks will appear here and keep running after you close Codeck.",
        ),
    };
    if lines.len() == 0 {
        lines.push(StyledLine::default());
        assert(views(lines@) =~= seq![seq![]]);
    }
    lines
}

/// How far back the preview can be scrolled.
pub open spec fn last_start(count: int, height: int) -> int {
    max_int(count - height, 0)
}

/// The lines of the preview that an area shows.
pub open spec fn visible_lines(lines: Seq<Seq<SpanView>>, scroll_back: int, height: int) -> Seq<
    Seq<SpanView>,
> {
    let end = last_start(lines.len() as int, height);
    let start = end - min_int(scroll_back, end);
    lines.subrange(start, min_int(start + height, lines.len() as int))
}

impl AppView {
    /// The preview is shown in an area, with some lines.
    #[verifier::opaque]
    pub open spec fn previewed(self, area: Rect, lines: Seq<Seq<SpanView>>) -> AppView {
        let back = min_int(
            self.scroll_back,
            last_start(lines.len() as int, area.height as int),
        );
        AppView {
            message_view_height: at_least_one(area.height as int),
            scroll_back: back,
            preview: self.preview.on_surface(
                area,
                plain_lines(visible_lines(lines, self.scroll_back, area.height as int)),
            ),
            ..self
        }
    }

    /// The preview is not shown.
    #[verifier::opaque]
    pub open spec fn unpreviewed(self) -> AppView {
        AppView { preview: self.preview.hidden(), ..self }
    }

    /// The composer has a width, and its prefix too.
    #[verifier::opaque]
    pub open spec fn laid_out(self, width: int, prefix: nat) -> AppView {
        AppView { composer_width: width as nat, composer_prefix_width: prefix, ..self }
    }

    /// Whether the selected session waits for the user.
    pub open spec fn is_asked(self) -> bool {
        self.selected_id() matches Some(id) && request_slot(self.pending_requests, id) is Some
    }
}

fn visible_part(lines: &Vec<StyledLine>, start: usize, end: usize) -> (part: Vec<StyledLine>)
    requires
        start <= end <= lines.len(),
    ensures
        views(part@) == views(lines@).subrange(start as int, end as int),
{
    let mut part: Vec<StyledLine> = Vec::new();
    let mut i: usize = start;
    while i < end
        invariant
            start <= i <= end <= lines.len(),
            part.len() == i - start,
            forall|j: int| 0 <= j < part.len() ==> (#[trigger] part@[j])@ == lines@[start + j]@,
        decreases end - i,
    {
        part.push(lines[i].clone());
        i += 1;
    }
    assert(views(part@) =~= views(lines@).subrange(start as int, end as int));
    part
}

fn texts_of_lines(lines: &Vec<StyledLine>) -> (shown: Vec<String>)
    ensures
        texts(shown@) == plain_lines(views(lines@)),
{
    let mut shown: Vec<String> = Vec::new();
    let mut i: usize = 0;
    while i < lines.len()
        invariant
            i <= lines.len(),
            shown.len() == i,
            forall|j: int| 0 <= j < i ==> (#[trigger] shown@[j])@ == plain(lines@[j]@),
        decreases lines.len() - i,
    {
        shown.push(lines[i].plain_text());
        i += 1;
    }
    assert(texts(shown@) =~= plain_lines(views(lines@)));
    shown
}

/// How far the preview is scrolled back, at most as far as it can be.
fn scroll_limit(count: usize, scroll_back: usize, height: usize) -> (back: usize)
    ensures
        back == min_int(scroll_back as int, last_start(count as int, height as int)),
{
    let end: usize = count.saturating_sub(height);
    if scroll_back < end {
        scroll_back
    } else {
        end
    }
}

fn visible_part_of(lines: &Vec<StyledLine>, scroll_back: usize, height: usize) -> (part: Vec<
    StyledLine,
>)
    ensures
        views(part@) == visible_lines(views(lines@), scroll_back as int, height as int),
{
    let end: usize = lines.len().saturating_sub(height);
    let start: usize = end - scroll_limit(lines.len(), scroll_back, height);
    let stop: usize = if lines.len() - start < height {
        lines.len()
    } else {
        start + height
    };
    visible_part(lines, start, stop)
}

fn take_preview_surface(app: &mut App, area: Rect, lines: &Vec<StyledLine>) -> (part: Vec<
    StyledLine,
>)
    requires
        old(app)@.wf(),
    ensures
        views(part@) == visible_lines(
            views(lines@),
            old(app)@.scroll_back,
            area.height as int,
        ),
        final(app)@ == old(app)@.previewed(area, views(lines@)),
        final(app)@.wf(),
{
    reveal(AppView::previewed);
    let part = visible_part_of(lines, app.scroll_back(), area.height as usize);
    let shown = texts_of_lines(&part);
    let back: usize = scroll_limit(lines.len(), app.scroll_back(), area.height as usize);
    app.set_message_view_height(area.height as usize);
    app.set_scroll_back(back);
    app.set_preview_surface(area, &shown);
    part
}

/// The rows of the preview, with the selected text over a background.
pub open spec fn preview_rows(
    lines: Seq<Seq<SpanView>>,
    preview: SelectionView,
    background: Color,
) -> Seq<ScreenRowView> {
    Seq::new(
        lines.len(),
        |i: int|
            ScreenRowView::of(with_selection(lines[i], preview.row_range(i), background)),
    )
}

fn preview_row_lines(app: &App, lines: &Vec<StyledLine>, background: Color) -> (rows: Vec<
    ScreenRow,
>)
    ensures
        views(rows@) == preview_rows(views(lines@), app@.preview, background),
{
    let ghost all = views(lines@);
    let mut rows: Vec<ScreenRow> = Vec::new();
    let mut i: usize = 0;
    while i < lines.len()
        invariant
            i <= lines.len(),
            all == views(lines@),
            rows.len() == i,
            forall|j: int|
                0 <= j < i ==> (#[trigger] rows@[j])@ == ScreenRowView::of(
                    with_selection(all[j], app@.preview.row_range(j), background),
                ),
        decreases lines.len() - i,
    {
        let line = lines[i].select(app.preview_selection_range(i), background);
        let row = ScreenRow { spans: line.spans, style: Style::default() };
        assert(row@.spans == line@);
        rows.push(row);
        i += 1;
    }
    assert(views(rows@) =~= preview_rows(all, app@.preview, background));
    rows
}

/// The dashboard with the screen that it draws on.
pub struct Drawing {
    pub app: AppView,
    pub screen: ScreenView,
}

impl Drawing {
    /// The sessions.
    #[verifier::opaque]
    pub open spec fn sessions(self, area: Rect) -> Drawing {
        Drawing {
            screen: self.screen.panel(area, session_rows(self.app, area), None),
            ..self
        }
    }

    /// The preview of the selected session.
    #[verifier::opaque]
    pub open spec fn preview(self, area: Rect, palette: TerminalPalette) -> Drawing {
        if has_no_cell(area) {
            Drawing { app: self.app.unpreviewed(), ..self }
        } else {
            let lines = preview_lines(self.app, area.width as int);
            let shown = visible_lines(lines, self.app.scroll_back, area.height as int);
            let app = self.app.previewed(area, lines);
            Drawing {
                app,
                screen: self.screen.panel(
                    area,
                    preview_rows(
                        shown,
                        app.preview,
                        tint(palette.background, palette.accent(6)),
                    ),
                    None,
                ).special(area, shown),
            }
        }
    }
}

/// The dashboard with a screen.
pub open spec fn drawing(app: AppView, screen: ScreenView) -> Drawing {
    Drawing { app, screen }
}

pub(crate) fn render_sessions(screen: &mut Screen, area: Rect, app: &App)
    ensures
        drawing(app@, final(screen)@) == drawing(app@, old(screen)@).sessions(area),
{
    reveal(Drawing::sessions);
    if area.is_empty() {
        reveal(ScreenView::panel);
        return;
    }
    screen.panel(area, session_lines(app, area), None);
}

pub(crate) fn render_separator(screen: &mut Screen, area: Rect)
    ensures
        final(screen)@ == old(screen)@.panel(area, separator_rows(area), None),
{
    screen.panel(area, separator_lines(area), None);
}

pub(crate) fn render_messages(screen: &mut Screen, area: Rect, app: &mut App, palette: &TerminalPalette)
    requires
        old(app)@.wf(),
    ensures
        drawing(final(app)@, final(screen)@) == drawing(old(app)@, old(screen)@).preview(
            area,
            *palette,
        ),
        final(app)@.wf(),
{
    reveal(Drawing::preview);
    if area.is_empty() {
        reveal(AppView::unpreviewed);
        app.clear_preview_surface();
        return;
    }
    let lines = preview_content(app, area.width as usize);
    let shown = take_preview_surface(app, area, &lines);
    let rows = preview_row_lines(app, &shown, palette.selection_background());
    screen.panel(area, rows, None);
    screen.special(area, &shown);
}

} // verus!
