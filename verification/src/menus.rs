//! The help, the menu and the pickers.

use vstd::prelude::*;

use crate::composer_view::at_least_one;
use crate::labels::{max_int, min_int};
use crate::model::{PreviewVerbosity, Session, SessionView};
use crate::rows::{
    bold, dim_style, empty_row, row1, row2, row3, row4, row5, row_style, ScreenRow, ScreenRowView,
    session_line, session_row, span, styled,
};
use crate::state::MenuTab;
use crate::style::{bold_colored, Color, colored, Modifier, Style};
use crate::text::{concat_text, pad_right, pad_text, text_is_empty};
use crate::views::{group_views, views};

verus! {

broadcast use group_views;

/// A skill that the picker offers.
#[derive(Debug)]
pub struct SkillItem {
    pub name: String,
    pub description: String,
    pub scope: String,
}

/// The mathematical form of a skill that the picker offers.
#[verifier::ext_equal]
pub struct SkillItemView {
    pub name: Seq<char>,
    pub description: Seq<char>,
    pub scope: Seq<char>,
}

impl View for SkillItem {
    type V = SkillItemView;

    open spec fn view(&self) -> SkillItemView {
        SkillItemView {
            name: self.name@,
            description: self.description@,
            scope: self.scope@,
        }
    }
}

/// The skills that fit what is being typed.
#[derive(Debug)]
pub struct SkillPickerView {
    pub items: Vec<SkillItem>,
    pub selected: usize,
    pub loading: bool,
}

/// A command that the picker offers.
#[derive(Debug)]
pub struct SlashCommandItem {
    pub name: String,
    pub description: String,
}

/// The mathematical form of a command that the picker offers.
#[verifier::ext_equal]
pub struct CommandItemView {
    pub name: Seq<char>,
    pub description: Seq<char>,
}

impl View for SlashCommandItem {
    type V = CommandItemView;

    open spec fn view(&self) -> CommandItemView {
        CommandItemView { name: self.name@, description: self.description@ }
    }
}

/// The commands that fit what is being typed.
#[derive(Debug)]
pub struct SlashCommandPickerView {
    pub items: Vec<SlashCommandItem>,
    pub selected: usize,
}

/// The sessions that can be resumed and fit a search.
#[derive(Debug)]
pub struct HistoryPickerView {
    pub query: String,
    pub items: Vec<Session>,
    pub selected: usize,
}

/// The first item that a list shows, so that the selected one is in sight.
pub open spec fn first_shown_item(selected: int, viewport: int) -> int {
    max_int(selected + 1 - viewport, 0)
}

/// The number of items that a list shows from the first one on.
pub open spec fn shown_items(count: int, first: int, viewport: int) -> int {
    max_int(min_int(count - first, viewport), 0)
}

/// The first item that a list shows, and the first one that it does not.
fn window(count: usize, selected: usize, viewport: usize) -> (range: (usize, usize))
    ensures
        range.0 == min_int(first_shown_item(selected as int, viewport as int), count as int),
        range.0 <= range.1 <= count,
        range.1 - range.0 == shown_items(
            count as int,
            first_shown_item(selected as int, viewport as int),
            viewport as int,
        ),
{
    let first: usize = if selected >= viewport {
        if viewport == 0 {
            selected.saturating_add(1)
        } else {
            selected - (viewport - 1)
        }
    } else {
        0
    };
    if first >= count {
        return (count, count);
    }
    if count - first < viewport {
        (first, count)
    } else {
        (first, first + viewport)
    }
}

/// The style of an item of a list.
pub open spec fn item_style(selected: bool) -> Style {
    row_style(selected)
}

/// The mark before an item of a list.
pub open spec fn item_mark(selected: bool) -> Seq<char> {
    if selected {
        "› "@
    } else {
        "  "@
    }
}

fn style_of_item(selected: bool) -> (style: Style)
    ensures
        style == item_style(selected),
{
    if selected {
        bold_colored(Color::Cyan)
    } else {
        Style::default()
    }
}

fn mark_of_item(selected: bool) -> (mark: &'static str)
    ensures
        mark@ == item_mark(selected),
{
    if selected {
        "› "
    } else {
        "  "
    }
}

/// The row of a skill.
pub open spec fn skill_row(skill: SkillItemView, selected: bool) -> ScreenRowView {
    ScreenRowView::of(
        seq![
            span(item_mark(selected), item_style(selected)),
            span("$"@ + pad_right(skill.name, 24), item_style(selected)),
            span(skill.description, Style::colored(Color::Gray)),
            span(
                if skill.scope.len() == 0 {
                    seq![]
                } else {
                    "  "@ + skill.scope
                },
                Style::colored(Color::DarkGray),
            ),
        ],
    )
}

/// The heading of a picker.
pub open spec fn picker_heading(title: Seq<char>, color: Color) -> ScreenRowView {
    ScreenRowView::of(
        seq![
            span(title, Style::bold_colored(color)),
            span("  ↑↓ select · Enter/Tab insert"@, Style::colored(Color::DarkGray)),
        ],
    )
}

fn heading_row(title: &str, color: Color) -> (row: ScreenRow)
    ensures
        row@ == picker_heading(title@, color),
{
    row2(
        styled(title, bold_colored(color)),
        styled("  ↑↓ select · Enter/Tab insert", dim_style()),
    )
}

/// A dim row.
pub open spec fn dim_row(text: Seq<char>) -> ScreenRowView {
    ScreenRowView::of(seq![span(text, Style::colored(Color::DarkGray))])
}

fn dim_text_row(text: &str) -> (row: ScreenRow)
    ensures
        row@ == dim_row(text@),
{
    row1(styled(text, dim_style()))
}

/// The rows of the skill picker in an area of some rows.
pub open spec fn skill_picker_rows(
    items: Seq<SkillItemView>,
    selected: int,
    loading: bool,
    height: int,
) -> Seq<ScreenRowView> {
    let viewport = max_int(height - 1, 0);
    let first = first_shown_item(selected, viewport);
    seq![picker_heading("$ Skills"@, Color::Green)] + if items.len() == 0 {
        seq![
            dim_row(
                if loading {
                    "  Loading skills…"@
                } else {
                    "  No matching skills"@
                },
            ),
        ]
    } else {
        Seq::new(
            shown_items(items.len() as int, first, viewport) as nat,
            |i: int| skill_row(items[first + i], first + i == selected),
        )
    }
}

fn skill_item_row(skill: &SkillItem, selected: bool) -> (row: ScreenRow)
    ensures
        row@ == skill_row(skill@, selected),
{
    let scope = if text_is_empty(skill.scope.as_str()) {
        String::new()
    } else {
        concat_text("  ", skill.scope.as_str())
    };
    let name = concat_text("$", pad_text(skill.name.as_str(), 24).as_str());
    let row = row4(
        styled(mark_of_item(selected), style_of_item(selected)),
        styled(name.as_str(), style_of_item(selected)),
        styled(skill.description.as_str(), colored(Color::Gray)),
        styled(scope.as_str(), dim_style()),
    );
    assert(row@.spans =~= skill_row(skill@, selected).spans);
    row
}

/// The rows of the skill picker in an area of some rows.
pub fn skill_picker_lines(picker: &SkillPickerView, height: u16) -> (rows: Vec<ScreenRow>)
    ensures
        views(rows@) == skill_picker_rows(
            views(picker.items@),
            picker.selected as int,
            picker.loading,
            height as int,
        ),
{
    let ghost items = views(picker.items@);
    let ghost viewport = max_int(height - 1, 0);
    let ghost first = first_shown_item(picker.selected as int, viewport);
    let mut rows: Vec<ScreenRow> = Vec::new();
    rows.push(heading_row("$ Skills", Color::Green));
    if picker.items.len() == 0 {
        let text = if picker.loading {
            "  Loading skills…"
        } else {
            "  No matching skills"
        };
        rows.push(dim_text_row(text));
        assert(views(rows@) =~= skill_picker_rows(
            items,
            picker.selected as int,
            picker.loading,
            height as int,
        ));
        return rows;
    }
    let (start, end) = window(
        picker.items.len(),
        picker.selected,
        height.saturating_sub(1) as usize,
    );
    let mut i: usize = start;
    while i < end
        invariant
            start <= i <= end <= picker.items.len(),
            items == views(picker.items@),
            start < end ==> start == first,
            rows.len() == 1 + i - start,
            rows@[0]@ == picker_heading("$ Skills"@, Color::Green),
            forall|j: int|
                0 < j < rows.len() ==> (#[trigger] rows@[j])@ == skill_row(
                    items[first + j - 1],
                    first + j - 1 == picker.selected,
                ),
        decreases end - i,
    {
        rows.push(skill_item_row(&picker.items[i], i == picker.selected));
        i += 1;
    }
    assert(views(rows@) =~= skill_picker_rows(
        items,
        picker.selected as int,
        picker.loading,
        height as int,
    ));
    rows
}

/// The row of a command.
pub open spec fn command_row(command: CommandItemView, selected: bool) -> ScreenRowView {
    ScreenRowView::of(
        seq![
            span(item_mark(selected), item_style(selected)),
            span("/"@ + pad_right(command.name, 24), item_style(selected)),
            span(command.description, Style::colored(Color::Gray)),
        ],
    )
}

/// The rows of the command picker in an area of some rows.
pub open spec fn command_picker_rows(
    items: Seq<CommandItemView>,
    selected: int,
    height: int,
) -> Seq<ScreenRowView> {
    let viewport = max_int(height - 1, 0);
    let first = first_shown_item(selected, viewport);
    seq![picker_heading("/ Commands"@, Color::Cyan)] + if items.len() == 0 {
        seq![dim_row("  No matching commands"@)]
    } else {
        Seq::new(
            shown_items(items.len() as int, first, viewport) as nat,
            |i: int| command_row(items[first + i], first + i == selected),
        )
    }
}

fn command_item_row(command: &SlashCommandItem, selected: bool) -> (row: ScreenRow)
    ensures
        row@ == command_row(command@, selected),
{
    let name = concat_text("/", pad_text(command.name.as_str(), 24).as_str());
    row3(
        styled(mark_of_item(selected), style_of_item(selected)),
        styled(name.as_str(), style_of_item(selected)),
        styled(command.description.as_str(), colored(Color::Gray)),
    )
}

/// The rows of the command picker in an area of some rows.
pub fn command_picker_lines(picker: &SlashCommandPickerView, height: u16) -> (rows: Vec<ScreenRow>)
    ensures
        views(rows@) == command_picker_rows(
            views(picker.items@),
            picker.selected as int,
            height as int,
        ),
{
    let ghost items = views(picker.items@);
    let ghost viewport = max_int(height - 1, 0);
    let ghost first = first_shown_item(picker.selected as int, viewport);
    let mut rows: Vec<ScreenRow> = Vec::new();
    rows.push(heading_row("/ Commands", Color::Cyan));
    if picker.items.len() == 0 {
        rows.push(dim_text_row("  No matching commands"));
        assert(views(rows@) =~= command_picker_rows(
            items,
            picker.selected as int,
            height as int,
        ));
        return rows;
    }
    let (start, end) = window(
        picker.items.len(),
        picker.selected,
        height.saturating_sub(1) as usize,
    );
    let mut i: usize = start;
    while i < end
        invariant
            start <= i <= end <= picker.items.len(),
            items == views(picker.items@),
            start < end ==> start == first,
            rows.len() == 1 + i - start,
            rows@[0]@ == picker_heading("/ Commands"@, Color::Cyan),
            forall|j: int|
                0 < j < rows.len() ==> (#[trigger] rows@[j])@ == command_row(
                    items[first + j - 1],
                    first + j - 1 == picker.selected,
                ),
        decreases end - i,
    {
        rows.push(command_item_row(&picker.items[i], i == picker.selected));
        i += 1;
    }
    assert(views(rows@) =~= command_picker_rows(items, picker.selected as int, height as int));
    rows
}

/// The keys that the help tells of. A line without a description is a heading.
pub open spec fn shortcuts() -> Seq<(Seq<char>, Seq<char>)> {
    navigation_shortcuts() + editing_shortcuts() + session_shortcuts()
}

pub open spec fn navigation_shortcuts() -> Seq<(Seq<char>, Seq<char>)> {
    seq![
        ("Navigation"@, ""@),
        ("Space"@, "open composer"@),
        ("↑ / ↓"@, "select session"@),
        ("← ← / → →"@, "menu / attach Codex"@),
        ("Wheel / PgUp/Dn"@, "scroll preview"@),
        (""@, ""@),
    ]
}

pub open spec fn editing_shortcuts() -> Seq<(Seq<char>, Seq<char>)> {
    seq![
        ("Editing"@, ""@),
        ("Tab"@, "switch Reply / New task"@),
        ("↑ / ↓"@, "move between visual rows"@),
        ("Enter / Shift+Enter"@, "send / newline"@),
        ("$ / Slash"@, "skills / commands"@),
        ("Ctrl+V / Ctrl+U"@, "image / clear"@),
        ("Esc / empty Space"@, "close; keep draft"@),
        (""@, ""@),
    ]
}

pub open spec fn session_shortcuts() -> Seq<(Seq<char>, Seq<char>)> {
    seq![
        ("Sessions"@, ""@),
        ("Ctrl+T / Ctrl+R"@, "pin / rename"@),
        ("Ctrl+X twice"@, "pause / remove"@),
        ("Mouse drag"@, "copy preview text"@),
        ("Esc twice"@, "close Codeck"@),
    ]
}

/// Pairs of texts by their characters.
pub open spec fn text_pairs(pairs: Seq<(&'static str, &'static str)>) -> Seq<
    (Seq<char>, Seq<char>),
> {
    Seq::new(pairs.len(), |i: int| (pairs[i].0@, pairs[i].1@))
}

fn navigation_list() -> (list: Vec<(&'static str, &'static str)>)
    ensures
        text_pairs(list@) == navigation_shortcuts(),
{
    let mut list: Vec<(&'static str, &'static str)> = Vec::new();
    list.push(("Navigation", ""));
    list.push(("Space", "open composer"));
    list.push(("↑ / ↓", "select session"));
    list.push(("← ← / → →", "menu / attach Codex"));
    list.push(("Wheel / PgUp/Dn", "scroll preview"));
    list.push(("", ""));
    assert(text_pairs(list@) =~= navigation_shortcuts());
    list
}

fn editing_list() -> (list: Vec<(&'static str, &'static str)>)
    ensures
        text_pairs(list@) == editing_shortcuts(),
{
    let mut list: Vec<(&'static str, &'static str)> = Vec::new();
    list.push(("Editing", ""));
    list.push(("Tab", "switch Reply / New task"));
    list.push(("↑ / ↓", "move between visual rows"));
    list.push(("Enter / Shift+Enter", "send / newline"));
    list.push(("$ / Slash", "skills / commands"));
    list.push(("Ctrl+V / Ctrl+U", "image / clear"));
    list.push(("Esc / empty Space", "close; keep draft"));
    list.push(("", ""));
    assert(text_pairs(list@) =~= editing_shortcuts());
    list
}

fn session_list() -> (list: Vec<(&'static str, &'static str)>)
    ensures
        text_pairs(list@) == session_shortcuts(),
{
    let mut list: Vec<(&'static str, &'static str)> = Vec::new();
    list.push(("Sessions", ""));
    list.push(("Ctrl+T / Ctrl+R", "pin / rename"));
    list.push(("Ctrl+X twice", "pause / remove"));
    list.push(("Mouse drag", "copy preview text"));
    list.push(("Esc twice", "close Codeck"));
    assert(text_pairs(list@) =~= session_shortcuts());
    list
}

/// The row of a shortcut.
pub open spec fn shortcut_row(shortcut: Seq<char>, description: Seq<char>) -> ScreenRowView {
    if description.len() > 0 {
        ScreenRowView::of(
            seq![
                span("  "@ + pad_right(shortcut, 18), Style::bold_colored(Color::Yellow)),
                span(description, Style::plain()),
            ],
        )
    } else if shortcut.len() > 0 {
        ScreenRowView::of(seq![span("  "@ + shortcut, Style::bold_colored(Color::Cyan))])
    } else {
        ScreenRowView::of(seq![])
    }
}

fn shortcut_line(shortcut: &str, description: &str) -> (row: ScreenRow)
    ensures
        row@ == shortcut_row(shortcut@, description@),
{
    if !text_is_empty(description) {
        let keys = concat_text("  ", pad_text(shortcut, 18).as_str());
        row2(
            styled(keys.as_str(), bold_colored(Color::Yellow)),
            styled(description, Style::default()),
        )
    } else if !text_is_empty(shortcut) {
        let heading = concat_text("  ", shortcut);
        row1(styled(heading.as_str(), bold_colored(Color::Cyan)))
    } else {
        empty_row()
    }
}

/// The rows of some shortcuts.
pub open spec fn shortcut_rows(pairs: Seq<(Seq<char>, Seq<char>)>) -> Seq<ScreenRowView> {
    Seq::new(pairs.len(), |i: int| shortcut_row(pairs[i].0, pairs[i].1))
}

/// The rows of the help.
pub open spec fn help_rows() -> Seq<ScreenRowView> {
    seq![
        ScreenRowView::of(
            seq![span("  Codeck shortcuts"@, Style::bold_colored(Color::Cyan))],
        ),
        ScreenRowView::of(seq![]),
    ] + shortcut_rows(shortcuts()) + seq![
        ScreenRowView::of(seq![]),
        dim_row("  ? / Esc close help"@),
    ]
}

/// The rows of the help.
pub fn help_lines() -> (rows: Vec<ScreenRow>)
    ensures
        views(rows@) == help_rows(),
{
    let mut list = navigation_list();
    let mut editing = editing_list();
    let mut sessions = session_list();
    list.append(&mut editing);
    list.append(&mut sessions);
    let ghost pairs = text_pairs(list@);
    assert(pairs =~= shortcuts());
    let mut rows: Vec<ScreenRow> = Vec::new();
    rows.push(row1(styled("  Codeck shortcuts", bold_colored(Color::Cyan))));
    rows.push(empty_row());
    let ghost heading = views(rows@);
    assert(heading =~= seq![
        ScreenRowView::of(
            seq![span("  Codeck shortcuts"@, Style::bold_colored(Color::Cyan))],
        ),
        ScreenRowView::of(seq![]),
    ]);
    let mut i: usize = 0;
    assert(heading + shortcut_rows(pairs).take(0) =~= heading);
    while i < list.len()
        invariant
            i <= list.len(),
            pairs == text_pairs(list@),
            views(rows@) == heading + shortcut_rows(pairs).take(i as int),
        decreases list.len() - i,
    {
        let row = shortcut_line(list[i].0, list[i].1);
        proof {
            assert(row@ == shortcut_rows(pairs)[i as int]);
            assert(shortcut_rows(pairs).take(i + 1) =~= shortcut_rows(pairs).take(i as int).push(
                row@,
            ));
        }
        rows.push(row);
        assert(views(rows@) =~= heading + shortcut_rows(pairs).take(i + 1));
        i += 1;
    }
    assert(shortcut_rows(pairs).take(i as int) =~= shortcut_rows(pairs));
    rows.push(empty_row());
    rows.push(dim_text_row("  ? / Esc close help"));
    assert(views(rows@) =~= help_rows());
    rows
}

/// The tabs of the menu.
pub open spec fn tabs_row(tab: MenuTab) -> ScreenRowView {
    let active = Style::bold_colored(Color::Green);
    let inactive = Style::colored(Color::DarkGray);
    ScreenRowView::of(
        seq![
            span("Codeck  "@, Style::plain().with(bold())),
            span(
                "Resume"@,
                if tab == MenuTab::Resume {
                    active
                } else {
                    inactive
                },
            ),
            span("  "@, inactive),
            span(
                "Settings"@,
                if tab == MenuTab::Settings {
                    active
                } else {
                    inactive
                },
            ),
            span("   Tab switch"@, inactive),
        ],
    )
}

/// The tabs of the menu.
pub fn menu_tabs(selected: MenuTab) -> (row: ScreenRow)
    ensures
        row@ == tabs_row(selected),
{
    let active = bold_colored(Color::Green);
    let inactive = dim_style();
    let row = row5(
        styled("Codeck  ", Style::default().add_modifier(Modifier::bold())),
        styled(
            "Resume",
            if selected == MenuTab::Resume {
                active
            } else {
                inactive
            },
        ),
        styled("  ", inactive),
        styled(
            "Settings",
            if selected == MenuTab::Settings {
                active
            } else {
                inactive
            },
        ),
        styled("   Tab switch", inactive),
    );
    assert(row@.spans =~= tabs_row(selected).spans);
    row
}

/// Rows with empty ones behind them, until one row of a panel is left.
pub open spec fn filled(rows: Seq<ScreenRowView>, height: int) -> Seq<ScreenRowView> {
    rows + Seq::new(
        max_int(height - 1 - rows.len(), 0) as nat,
        |i: int| ScreenRowView::of(seq![]),
    )
}

fn fill_rows(rows: &mut Vec<ScreenRow>, height: u16)
    ensures
        views(final(rows)@) == filled(views(old(rows)@), height as int),
{
    let ghost start = views(rows@);
    let ghost empty = ScreenRowView::of(seq![]);
    let wanted: usize = height.saturating_sub(1) as usize;
    assert(views(rows@) =~= start + Seq::new(0, |i: int| empty));
    while rows.len() < wanted
        invariant
            wanted == max_int(height - 1, 0),
            empty == ScreenRowView::of(seq![]),
            start.len() <= rows.len(),
            rows.len() <= wanted || rows.len() == start.len(),
            views(rows@) == start + Seq::new((rows.len() - start.len()) as nat, |i: int| empty),
        decreases wanted - rows.len(),
    {
        rows.push(empty_row());
        assert(views(rows@) =~= start + Seq::new(
            (rows.len() - start.len()) as nat,
            |i: int| empty,
        ));
    }
    assert(views(rows@) =~= filled(start, height as int));
}

/// The row of a preview level.
pub open spec fn level_row(
    active: bool,
    emoji: Seq<char>,
    label: Seq<char>,
    description: Seq<char>,
) -> ScreenRowView {
    ScreenRowView::of(
        seq![
            span(item_mark(active), item_style(active)),
            span(emoji, item_style(active)),
            span(pad_right(label, 10), item_style(active)),
            span(description, Style::colored(Color::DarkGray)),
        ],
    )
}

fn level_line(active: bool, emoji: &str, label: &str, description: &str) -> (row: ScreenRow)
    ensures
        row@ == level_row(active, emoji@, label@, description@),
{
    row4(
        styled(mark_of_item(active), style_of_item(active)),
        styled(emoji, style_of_item(active)),
        styled(pad_text(label, 10).as_str(), style_of_item(active)),
        styled(description, dim_style()),
    )
}

/// The rows of the settings, for a panel of some rows.
pub open spec fn settings_rows(verbosity: PreviewVerbosity, height: int) -> Seq<ScreenRowView> {
    filled(
        seq![
            tabs_row(MenuTab::Settings),
            ScreenRowView::of(seq![]),
            ScreenRowView::of(seq![span("Preview verbosity"@, Style::plain().with(bold()))]),
            level_row(
                verbosity == PreviewVerbosity::Full,
                "🧠 "@,
                "Full"@,
                "thinking, progress, and final replies"@,
            ),
            level_row(
                verbosity == PreviewVerbosity::Progress,
                "💬 "@,
                "Progress"@,
                "progress and final replies"@,
            ),
            level_row(
                verbosity == PreviewVerbosity::Final,
                "✅ "@,
                "Final"@,
                "final replies only"@,
            ),
        ],
        height,
    ).push(
        dim_row("↑↓ select · Enter save · Tab switch · Esc/←← close · Esc twice close Codeck"@),
    )
}

/// The rows of the settings, for a panel of some rows.
pub fn settings_lines(verbosity: PreviewVerbosity, height: u16) -> (rows: Vec<ScreenRow>)
    ensures
        views(rows@) == settings_rows(verbosity, height as int),
{
    let mut rows: Vec<ScreenRow> = Vec::new();
    rows.push(menu_tabs(MenuTab::Settings));
    rows.push(empty_row());
    rows.push(
        row1(styled("Preview verbosity", Style::default().add_modifier(Modifier::bold()))),
    );
    rows.push(
        level_line(
            verbosity == PreviewVerbosity::Full,
            "🧠 ",
            "Full",
            "thinking, progress, and final replies",
        ),
    );
    rows.push(
        level_line(
            verbosity == PreviewVerbosity::Progress,
            "💬 ",
            "Progress",
            "progress and final replies",
        ),
    );
    rows.push(
        level_line(
            verbosity == PreviewVerbosity::Final,
            "✅ ",
            "Final",
            "final replies only",
        ),
    );
    proof {
        let shown = views(rows@);
        let wanted = seq![
            tabs_row(MenuTab::Settings),
            ScreenRowView::of(seq![]),
            ScreenRowView::of(seq![span("Preview verbosity"@, Style::plain().with(bold()))]),
            level_row(
                verbosity == PreviewVerbosity::Full,
                "🧠 "@,
                "Full"@,
                "thinking, progress, and final replies"@,
            ),
            level_row(
                verbosity == PreviewVerbosity::Progress,
                "💬 "@,
                "Progress"@,
                "progress and final replies"@,
            ),
            level_row(
                verbosity == PreviewVerbosity::Final,
                "✅ "@,
                "Final"@,
                "final replies only"@,
            ),
        ];
        assert(shown =~= wanted);
    }
    fill_rows(&mut rows, height);
    rows.push(
        dim_text_row("↑↓ select · Enter save · Tab switch · Esc/←← close · Esc twice close Codeck"),
    );
    rows
}

/// The rows of the sessions that the menu offers.
pub open spec fn offered_rows(
    query: Seq<char>,
    items: Seq<SessionView>,
    selected: int,
    width: int,
    height: int,
) -> Seq<ScreenRowView> {
    let viewport = max_int(height - 5, 0);
    let first = first_shown_item(selected, at_least_one(viewport));
    if items.len() == 0 {
        seq![
            dim_row(
                if query.len() == 0 {
                    "  No sessions outside Codeck"@
                } else {
                    "  No matching sessions"@
                },
            ),
        ]
    } else {
        Seq::new(
            shown_items(items.len() as int, first, viewport) as nat,
            |i: int| session_row(items[first + i], false, first + i == selected, None, width),
        )
    }
}

/// The rows of the search for a session, for a panel of some rows.
pub open spec fn resume_rows(
    query: Seq<char>,
    items: Seq<SessionView>,
    selected: int,
    width: int,
    height: int,
) -> Seq<ScreenRowView> {
    filled(
        seq![
            tabs_row(MenuTab::Resume),
            ScreenRowView::of(seq![]),
            ScreenRowView::of(
                seq![
                    span("Find › "@, Style::bold_colored(Color::Magenta)),
                    span(query, Style::plain()),
                ],
            ),
            ScreenRowView::of(seq![]),
        ] + offered_rows(query, items, selected, width, height),
        height,
    ).push(dim_row("type to filter · ↑↓ select · Enter add · Tab switch · ←← close"@))
}

fn offered_lines(picker: &HistoryPickerView, width: u16, height: u16) -> (rows: Vec<ScreenRow>)
    ensures
        views(rows@) == offered_rows(
            picker.query@,
            views(picker.items@),
            picker.selected as int,
            width as int,
            height as int,
        ),
{
    let ghost items = views(picker.items@);
    let viewport: usize = height.saturating_sub(5) as usize;
    let ghost first = first_shown_item(picker.selected as int, at_least_one(viewport as int));
    let mut rows: Vec<ScreenRow> = Vec::new();
    if picker.items.len() == 0 {
        let text = if text_is_empty(picker.query.as_str()) {
            "  No sessions outside Codeck"
        } else {
            "  No matching sessions"
        };
        rows.push(dim_text_row(text));
        assert(views(rows@) =~= offered_rows(
            picker.query@,
            items,
            picker.selected as int,
            width as int,
            height as int,
        ));
        return rows;
    }
    if viewport == 0 {
        assert(views(rows@) =~= offered_rows(
            picker.query@,
            items,
            picker.selected as int,
            width as int,
            height as int,
        ));
        return rows;
    }
    let (start, end) = window(picker.items.len(), picker.selected, viewport);
    let mut i: usize = start;
    while i < end
        invariant
            start <= i <= end <= picker.items.len(),
            items == views(picker.items@),
            start < end ==> start == first,
            rows.len() == i - start,
            forall|j: int|
                0 <= j < rows.len() ==> (#[trigger] rows@[j])@ == session_row(
                    items[first + j],
                    false,
                    first + j == picker.selected,
                    None,
                    width as int,
                ),
        decreases end - i,
    {
        rows.push(
            session_line(&picker.items[i], false, i == picker.selected, None, width as usize),
        );
        i += 1;
    }
    assert(views(rows@) =~= offered_rows(
        picker.query@,
        items,
        picker.selected as int,
        width as int,
        height as int,
    ));
    rows
}

/// The rows of the search for a session, for a panel of some rows.
pub fn resume_lines(picker: &HistoryPickerView, width: u16, height: u16) -> (rows: Vec<ScreenRow>)
    ensures
        views(rows@) == resume_rows(
            picker.query@,
            views(picker.items@),
            picker.selected as int,
            width as int,
            height as int,
        ),
{
    let mut rows: Vec<ScreenRow> = Vec::new();
    rows.push(menu_tabs(MenuTab::Resume));
    rows.push(empty_row());
    rows.push(
        row2(
            styled("Find › ", bold_colored(Color::Magenta)),
            styled(picker.query.as_str(), Style::default()),
        ),
    );
    rows.push(empty_row());
    proof {
        let shown = views(rows@);
        let wanted = seq![
            tabs_row(MenuTab::Resume),
            ScreenRowView::of(seq![]),
            ScreenRowView::of(
                seq![
                    span("Find › "@, Style::bold_colored(Color::Magenta)),
                    span(picker.query@, Style::plain()),
                ],
            ),
            ScreenRowView::of(seq![]),
        ];
        assert(shown =~= wanted);
    }
    let mut offered = offered_lines(picker, width, height);
    rows.append(&mut offered);
    fill_rows(&mut rows, height);
    rows.push(dim_text_row("type to filter · ↑↓ select · Enter add · Tab switch · ←← close"));
    rows
}

} // verus!
