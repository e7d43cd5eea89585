//! Colours and text styles.

use vstd::prelude::*;

use crate::terminal_palette::Rgb;

verus! {

/// A terminal colour.
#[derive(Debug, Clone, Copy, PartialEq, Eq, Structural)]
pub enum Color {
    Reset,
    Red,
    Green,
    Yellow,
    Blue,
    Magenta,
    Cyan,
    Gray,
    DarkGray,
    Rgb(u8, u8, u8),
}

/// A set of text attributes.
#[derive(Debug, Clone, Copy, PartialEq, Eq, Structural)]
pub struct Modifier {
    pub bold: bool,
    pub italic: bool,
    pub underlined: bool,
    pub slow_blink: bool,
    pub reversed: bool,
    pub crossed_out: bool,
}

impl Default for Modifier {
    fn default() -> (modifier: Modifier)
        ensures
            modifier == Modifier::none(),
    {
        Modifier {
            bold: false,
            italic: false,
            underlined: false,
            slow_blink: false,
            reversed: false,
            crossed_out: false,
        }
    }
}

impl Modifier {
    /// No attribute.
    pub open spec fn none() -> Modifier {
        Modifier {
            bold: false,
            italic: false,
            underlined: false,
            slow_blink: false,
            reversed: false,
            crossed_out: false,
        }
    }

    /// The attributes of one set or of another.
    pub open spec fn joined(self, other: Modifier) -> Modifier {
        Modifier {
            bold: self.bold || other.bold,
            italic: self.italic || other.italic,
            underlined: self.underlined || other.underlined,
            slow_blink: self.slow_blink || other.slow_blink,
            reversed: self.reversed || other.reversed,
            crossed_out: self.crossed_out || other.crossed_out,
        }
    }

    /// The attributes of one set that are not in another.
    pub open spec fn lessened(self, other: Modifier) -> Modifier {
        Modifier {
            bold: self.bold && !other.bold,
            italic: self.italic && !other.italic,
            underlined: self.underlined && !other.underlined,
            slow_blink: self.slow_blink && !other.slow_blink,
            reversed: self.reversed && !other.reversed,
            crossed_out: self.crossed_out && !other.crossed_out,
        }
    }

    /// Bold text.
    pub fn bold() -> (modifier: Modifier)
        ensures
            modifier == (Modifier { bold: true, ..Modifier::none() }),
    {
        let mut modifier = Modifier::default();
        modifier.bold = true;
        modifier
    }

    /// Italic text.
    pub fn italic() -> (modifier: Modifier)
        ensures
            modifier == (Modifier { italic: true, ..Modifier::none() }),
    {
        let mut modifier = Modifier::default();
        modifier.italic = true;
        modifier
    }

    /// Underlined text.
    pub fn underlined() -> (modifier: Modifier)
        ensures
            modifier == (Modifier { underlined: true, ..Modifier::none() }),
    {
        let mut modifier = Modifier::default();
        modifier.underlined = true;
        modifier
    }

    /// Text that is struck through.
    pub fn crossed_out() -> (modifier: Modifier)
        ensures
            modifier == (Modifier { crossed_out: true, ..Modifier::none() }),
    {
        let mut modifier = Modifier::default();
        modifier.crossed_out = true;
        modifier
    }

    /// The attributes of either set.
    pub fn union(self, other: Modifier) -> (modifier: Modifier)
        ensures
            modifier == self.joined(other),
    {
        Modifier {
            bold: self.bold || other.bold,
            italic: self.italic || other.italic,
            underlined: self.underlined || other.underlined,
            slow_blink: self.slow_blink || other.slow_blink,
            reversed: self.reversed || other.reversed,
            crossed_out: self.crossed_out || other.crossed_out,
        }
    }

    /// The attributes that are not in the other set.
    pub fn difference(self, other: Modifier) -> (modifier: Modifier)
        ensures
            modifier == self.lessened(other),
    {
        Modifier {
            bold: self.bold && !other.bold,
            italic: self.italic && !other.italic,
            underlined: self.underlined && !other.underlined,
            slow_blink: self.slow_blink && !other.slow_blink,
            reversed: self.reversed && !other.reversed,
            crossed_out: self.crossed_out && !other.crossed_out,
        }
    }
}

/// A change of how text looks: the colours that it sets, and the attributes that
/// it adds and takes away.
#[derive(Debug, Clone, Copy, PartialEq, Eq)]
pub struct Style {
    pub fg: Option<Color>,
    pub bg: Option<Color>,
    pub add_modifier: Modifier,
    pub sub_modifier: Modifier,
}

impl Default for Style {
    fn default() -> (style: Style)
        ensures
            style == Style::plain(),
    {
        Style {
            fg: None,
            bg: None,
            add_modifier: Modifier::default(),
            sub_modifier: Modifier::default(),
        }
    }
}

impl Style {
    /// The style that changes nothing.
    pub open spec fn plain() -> Style {
        Style {
            fg: None,
            bg: None,
            add_modifier: Modifier::none(),
            sub_modifier: Modifier::none(),
        }
    }

    /// A foreground colour alone.
    pub open spec fn colored(color: Color) -> Style {
        Style { fg: Some(color), ..Style::plain() }
    }

    /// A foreground colour and bold text.
    pub open spec fn bold_colored(color: Color) -> Style {
        Style {
            fg: Some(color),
            add_modifier: Modifier { bold: true, ..Modifier::none() },
            ..Style::plain()
        }
    }

    /// One style over another: what the upper one sets wins.
    pub open spec fn patched(self, over: Style) -> Style {
        Style {
            fg: if over.fg is Some {
                over.fg
            } else {
                self.fg
            },
            bg: if over.bg is Some {
                over.bg
            } else {
                self.bg
            },
            add_modifier: self.add_modifier.lessened(over.sub_modifier).joined(over.add_modifier),
            sub_modifier: self.sub_modifier.lessened(over.add_modifier).joined(over.sub_modifier),
        }
    }

    /// The style with some attributes added.
    pub open spec fn with(self, modifier: Modifier) -> Style {
        Style {
            add_modifier: self.add_modifier.joined(modifier),
            sub_modifier: self.sub_modifier.lessened(modifier),
            ..self
        }
    }

    /// The style with some attributes taken away.
    pub open spec fn without(self, modifier: Modifier) -> Style {
        Style {
            add_modifier: self.add_modifier.lessened(modifier),
            sub_modifier: self.sub_modifier.joined(modifier),
            ..self
        }
    }

    /// The style with a foreground colour.
    pub fn fg(self, color: Color) -> (style: Style)
        ensures
            style == (Style { fg: Some(color), ..self }),
    {
        let mut style = self;
        style.fg = Some(color);
        style
    }

    /// The style with a background colour.
    pub fn bg(self, color: Color) -> (style: Style)
        ensures
            style == (Style { bg: Some(color), ..self }),
    {
        let mut style = self;
        style.bg = Some(color);
        style
    }

    /// The style with some attributes added.
    pub fn add_modifier(self, modifier: Modifier) -> (style: Style)
        ensures
            style == self.with(modifier),
    {
        let mut style = self;
        style.sub_modifier = self.sub_modifier.difference(modifier);
        style.add_modifier = self.add_modifier.union(modifier);
        style
    }

    /// The style with some attributes taken away.
    pub fn remove_modifier(self, modifier: Modifier) -> (style: Style)
        ensures
            style == self.without(modifier),
    {
        let mut style = self;
        style.add_modifier = self.add_modifier.difference(modifier);
        style.sub_modifier = self.sub_modifier.union(modifier);
        style
    }

    /// One style over another.
    pub fn patch(self, over: Style) -> (style: Style)
        ensures
            style == self.patched(over),
    {
        Style {
            fg: if over.fg.is_some() {
                over.fg
            } else {
                self.fg
            },
            bg: if over.bg.is_some() {
                over.bg
            } else {
                self.bg
            },
            add_modifier: self.add_modifier.difference(over.sub_modifier).union(over.add_modifier),
            sub_modifier: self.sub_modifier.difference(over.add_modifier).union(over.sub_modifier),
        }
    }

    /// Whether two styles set the same.
    pub fn same(self, other: Style) -> (same: bool)
        ensures
            same == (self == other),
    {
        same_color(self.fg, other.fg) && same_color(self.bg, other.bg) && self.add_modifier
            == other.add_modifier && self.sub_modifier == other.sub_modifier
    }
}

fn same_color(a: Option<Color>, b: Option<Color>) -> (same: bool)
    ensures
        same == (a == b),
{
    match (a, b) {
        (Some(a), Some(b)) => a == b,
        (None, None) => true,
        _ => false,
    }
}

/// A plain style with a foreground colour.
pub fn colored(color: Color) -> (style: Style)
    ensures
        style == Style::colored(color),
{
    Style::default().fg(color)
}

/// A bold style with a foreground colour.
pub fn bold_colored(color: Color) -> (style: Style)
    ensures
        style == Style::bold_colored(color),
{
    Style::default().fg(color).add_modifier(Modifier::bold())
}

/// A style over the plain one is that style, and the plain style over another
/// changes nothing.
pub proof fn law_plain_style_is_neutral(style: Style)
    ensures
        style.patched(Style::plain()) == style,
        Style::plain().patched(style) == style,
{
}

/// A rectangle of cells on the screen.
#[derive(Debug, Clone, Copy, PartialEq, Eq, Structural)]
pub struct Rect {
    pub x: u16,
    pub y: u16,
    pub width: u16,
    pub height: u16,
}

/// The number, at most the largest that a screen coordinate can be.
pub open spec fn screen_limit(value: int) -> int {
    if value > u16::MAX {
        u16::MAX as int
    } else {
        value
    }
}

impl Default for Rect {
    fn default() -> (area: Rect)
        ensures
            area == Rect::none(),
    {
        Rect { x: 0, y: 0, width: 0, height: 0 }
    }
}

impl Rect {
    /// The rectangle without a cell at the origin.
    pub open spec fn none() -> Rect {
        Rect { x: 0, y: 0, width: 0, height: 0 }
    }

    /// The first column to the right of the rectangle.
    pub open spec fn end_column(self) -> int {
        screen_limit(self.x + self.width)
    }

    /// The first row below the rectangle.
    pub open spec fn end_row(self) -> int {
        screen_limit(self.y + self.height)
    }

    /// A rectangle by its corner and its size, cut off at the largest coordinate.
    pub fn new(x: u16, y: u16, width: u16, height: u16) -> (area: Rect)
        ensures
            area.x == x,
            area.y == y,
            area.width == screen_limit(x + width) - x,
            area.height == screen_limit(y + height) - y,
    {
        Rect { x, y, width: x.saturating_add(width) - x, height: y.saturating_add(height) - y }
    }

    /// The first column to the right of the rectangle.
    pub fn right(self) -> (column: u16)
        ensures
            column == self.end_column(),
    {
        self.x.saturating_add(self.width)
    }

    /// The first row below the rectangle.
    pub fn bottom(self) -> (row: u16)
        ensures
            row == self.end_row(),
    {
        self.y.saturating_add(self.height)
    }

    /// Whether the rectangle has no cell.
    pub fn is_empty(self) -> (empty: bool)
        ensures
            empty == (self.width == 0 || self.height == 0),
    {
        self.width == 0 || self.height == 0
    }
}

} // verus!
